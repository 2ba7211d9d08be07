//! One discovery run as a state machine: choosing the interface, enumerating
//! the candidates, probing them, resolving the hardware address of each live
//! host, looking up vendors, and the report. The machine decides; its caller
//! performs each action on the network or the database and hands back what
//! happened together with the time on its clock.
//!
//! The caller may set a deadline. Whenever the machine would ask for more
//! work on the network or the database after the deadline has passed, it
//! ends the run instead: every live host keeps its place in the report, those
//! not reached are marked unresolved, and vendors not yet looked up stay
//! unknown.

use crate::addr::{Ipv4, MacAddr};
use crate::arp::{
    lemma_next_preserves, ArpAction, ArpActionView, ArpBinding, ArpEvent, ArpEventView, ArpPhase,
    ArpResolver,
};
use crate::candidates::{
    ascending_members, candidate_addresses, lemma_candidates_of_block, lists_ascending,
    strictly_ascending, CandidateSet,
};
use crate::frame::{frame_bytes, request_frame};
use crate::iface::{
    interface_views, name_view, select, selection, InterfaceView, NetworkInterface, SelectError,
};
use crate::report::{
    ascending_records, records_of, vendor_name_of, DiscoveryReport, VendorInfo, VendorInfoView,
};
use crate::text::clone_optional;
use vstd::prelude::*;

verus! {

/// Where a run stands.
#[derive(Clone, Copy, Debug, PartialEq, Eq, Structural)]
pub enum Stage {
    SelectingInterface,
    EnumeratingCandidates,
    ProbingLiveness,
    ResolvingHardwareAddresses,
    LookingUpVendors,
    Done,
}

/// Why a run was given up. Nothing that goes wrong for a single host is
/// among these.
#[derive(Clone, Copy, Debug, PartialEq, Eq, Structural)]
pub enum DiscoveryError {
    InterfaceNotFound,
    NoDefaultInterface,
    NoIPv4Address,
    ProbeEngineUnavailable,
    InsufficientPrivilege,
}

/// The reason for giving up that a failed choice of interface stands for.
pub open spec fn error_of(e: SelectError) -> DiscoveryError {
    match e {
        SelectError::InterfaceNotFound => DiscoveryError::InterfaceNotFound,
        SelectError::NoDefaultInterface => DiscoveryError::NoDefaultInterface,
        SelectError::NoIPv4Address => DiscoveryError::NoIPv4Address,
    }
}

/// Where the candidates come from.
#[derive(Debug)]
pub enum CandidateSource {
    /// The block of this prefix length around the interface's own address.
    InterfaceBlock { prefix: u8 },
    /// The block `base/prefix`.
    Block { base: Ipv4, prefix: u8 },
    /// The addresses of a list, in any order.
    Addresses(Vec<Ipv4>),
}

/// The mathematical content of a `CandidateSource`.
pub enum SourceView {
    InterfaceBlock { prefix: u8 },
    Block { base: Ipv4, prefix: u8 },
    Addresses(Seq<Ipv4>),
}

impl View for CandidateSource {
    type V = SourceView;

    open spec fn view(&self) -> SourceView {
        match self {
            CandidateSource::InterfaceBlock { prefix } => SourceView::InterfaceBlock {
                prefix: *prefix,
            },
            CandidateSource::Block { base, prefix } => SourceView::Block {
                base: *base,
                prefix: *prefix,
            },
            CandidateSource::Addresses(list) => SourceView::Addresses(list@),
        }
    }
}

impl SourceView {
    /// A prefix length is at most 32.
    pub open spec fn wf(self) -> bool {
        match self {
            SourceView::InterfaceBlock { prefix } => prefix <= 32,
            SourceView::Block { base, prefix } => prefix <= 32,
            SourceView::Addresses(list) => true,
        }
    }

    /// The candidates in ascending order, for an interface with the given
    /// address.
    pub open spec fn candidates(self, own_ip: Ipv4) -> Seq<Ipv4> {
        match self {
            SourceView::InterfaceBlock { prefix } => candidate_addresses(own_ip, prefix),
            SourceView::Block { base, prefix } => candidate_addresses(base, prefix),
            SourceView::Addresses(list) => ascending_members(list.to_set()),
        }
    }
}

/// What a run is asked to do.
#[derive(Debug)]
pub struct DiscoveryConfig {
    /// The interface to scan on; the one of the default route where `None`.
    pub interface_name: Option<String>,
    pub source: CandidateSource,
    /// How long each liveness probe may wait.
    pub probe_timeout_ms: u64,
    /// How many frames are read at most for one host.
    pub arp_attempts: u32,
    /// How long each read of a frame may wait.
    pub arp_timeout_ms: u64,
    /// The time on the caller's clock after which no more work is started.
    pub deadline_ms: Option<u64>,
}

/// The mathematical content of a `DiscoveryConfig`.
pub struct ConfigView {
    pub interface_name: Option<Seq<char>>,
    pub source: SourceView,
    pub probe_timeout_ms: u64,
    pub arp_attempts: u32,
    pub arp_timeout_ms: u64,
    pub deadline_ms: Option<u64>,
}

impl View for DiscoveryConfig {
    type V = ConfigView;

    open spec fn view(&self) -> ConfigView {
        ConfigView {
            interface_name: name_view(self.interface_name),
            source: self.source@,
            probe_timeout_ms: self.probe_timeout_ms,
            arp_attempts: self.arp_attempts,
            arp_timeout_ms: self.arp_timeout_ms,
            deadline_ms: self.deadline_ms,
        }
    }
}

impl ConfigView {
    /// Whether the deadline has passed at the time `now_ms`.
    pub open spec fn expired(self, now_ms: u64) -> bool {
        self.deadline_ms.is_some() && now_ms >= self.deadline_ms.unwrap()
    }
}

/// What the caller of a run reports back.
#[derive(Debug)]
pub enum Event {
    /// Answers `SelectInterface`: whether raw frames may be sent, the
    /// interfaces of the machine, and the address of the default route.
    Environment {
        privileged: bool,
        interfaces: Vec<NetworkInterface>,
        default_route_addr: Option<Ipv4>,
    },
    /// Answers `Enumerate`.
    Continue,
    /// Answers `Probe`: every probe has ended, and these addresses replied.
    ProbeFinished { up: Vec<Ipv4> },
    /// Answers `Probe`: the probes could not be set up at all.
    ProbeEngineUnavailable,
    /// Answers `SendFrame`: the frame is on the wire.
    FrameSent,
    /// Answers `SendFrame`: the frame could not be sent.
    FrameSendFailed,
    /// Answers `ReceiveFrame`: this frame arrived in time.
    FrameReceived(Vec<u8>),
    /// Answers `ReceiveFrame`: no frame arrived in time, or reading failed.
    ReceiveTimedOut,
    /// Answers `LookupVendor`.
    Vendor(Option<VendorInfo>),
}

/// The mathematical content of an `Event`.
pub enum EventView {
    Environment {
        privileged: bool,
        interfaces: Seq<InterfaceView>,
        default_route_addr: Option<Ipv4>,
    },
    Continue,
    ProbeFinished { up: Seq<Ipv4> },
    ProbeEngineUnavailable,
    FrameSent,
    FrameSendFailed,
    FrameReceived(Seq<u8>),
    ReceiveTimedOut,
    Vendor(Option<VendorInfoView>),
}

impl View for Event {
    type V = EventView;

    open spec fn view(&self) -> EventView {
        match self {
            Event::Environment { privileged, interfaces, default_route_addr } => {
                EventView::Environment {
                    privileged: *privileged,
                    interfaces: interface_views(interfaces@),
                    default_route_addr: *default_route_addr,
                }
            },
            Event::Continue => EventView::Continue,
            Event::ProbeFinished { up } => EventView::ProbeFinished { up: up@ },
            Event::ProbeEngineUnavailable => EventView::ProbeEngineUnavailable,
            Event::FrameSent => EventView::FrameSent,
            Event::FrameSendFailed => EventView::FrameSendFailed,
            Event::FrameReceived(bytes) => EventView::FrameReceived(bytes@),
            Event::ReceiveTimedOut => EventView::ReceiveTimedOut,
            Event::Vendor(answer) => EventView::Vendor(
                match answer {
                    Some(info) => Some(info@),
                    None => None,
                },
            ),
        }
    }
}

impl EventView {
    /// What the event says to the resolver of the host in hand, if it is one
    /// of the events of the channel.
    pub open spec fn for_resolver(self) -> Option<ArpEventView> {
        match self {
            EventView::FrameSent => Some(ArpEventView::Sent),
            EventView::FrameSendFailed => Some(ArpEventView::SendFailed),
            EventView::FrameReceived(bytes) => Some(ArpEventView::Frame(bytes)),
            EventView::ReceiveTimedOut => Some(ArpEventView::TimedOut),
            _ => None,
        }
    }
}

/// What a run asks of its caller.
#[derive(Debug)]
pub enum Action {
    /// Find out whether raw frames may be sent, list the interfaces and the
    /// address of the default route; report `Environment`.
    SelectInterface { name: Option<String> },
    /// Nothing to do outside; report `Continue`.
    Enumerate,
    /// Probe each of these addresses once, wait until every probe has ended,
    /// and report `ProbeFinished` or `ProbeEngineUnavailable`.
    Probe { candidates: Vec<Ipv4>, timeout_ms: u64 },
    /// Transmit these bytes once on the interface's channel.
    SendFrame(Vec<u8>),
    /// Wait for one inbound frame on the channel for at most this long.
    ReceiveFrame { timeout_ms: u64 },
    /// Ask the vendor database for this hardware address.
    LookupVendor { mac: MacAddr },
    /// The run is over and the report is complete.
    Finished,
    /// The run was given up.
    Aborted(DiscoveryError),
}

/// The mathematical content of an `Action`.
pub enum ActionView {
    SelectInterface { name: Option<Seq<char>> },
    Enumerate,
    Probe { candidates: Seq<Ipv4>, timeout_ms: u64 },
    SendFrame(Seq<u8>),
    ReceiveFrame { timeout_ms: u64 },
    LookupVendor { mac: MacAddr },
    Finished,
    Aborted(DiscoveryError),
}

impl View for Action {
    type V = ActionView;

    open spec fn view(&self) -> ActionView {
        match self {
            Action::SelectInterface { name } => ActionView::SelectInterface {
                name: name_view(*name),
            },
            Action::Enumerate => ActionView::Enumerate,
            Action::Probe { candidates, timeout_ms } => ActionView::Probe {
                candidates: candidates@,
                timeout_ms: *timeout_ms,
            },
            Action::SendFrame(bytes) => ActionView::SendFrame(bytes@),
            Action::ReceiveFrame { timeout_ms } => ActionView::ReceiveFrame {
                timeout_ms: *timeout_ms,
            },
            Action::LookupVendor { mac } => ActionView::LookupVendor { mac: *mac },
            Action::Finished => ActionView::Finished,
            Action::Aborted(e) => ActionView::Aborted(*e),
        }
    }
}

/// Everything that a run knows at one moment.
pub struct DiscoveryState {
    pub stage: Stage,
    /// Why the run was given up, if it was.
    pub failure: Option<DiscoveryError>,
    /// The interface chosen.
    pub interface: Option<InterfaceView>,
    /// The candidates in ascending order.
    pub candidates: Seq<Ipv4>,
    /// The candidates that replied, in ascending order.
    pub live: Seq<Ipv4>,
    /// The bindings established so far: those of the first live hosts.
    pub bindings: Seq<ArpBinding>,
    /// The vendor name found for each binding.
    pub vendors: Seq<Option<Seq<char>>>,
    /// The resolution in hand while hardware addresses are being resolved.
    pub resolver: Option<ArpResolver>,
    /// The binding whose vendor is being looked up.
    pub cursor: int,
}

impl DiscoveryState {
    /// The state in which every run starts.
    pub open spec fn initial() -> DiscoveryState {
        DiscoveryState {
            stage: Stage::SelectingInterface,
            failure: None,
            interface: None,
            candidates: Seq::empty(),
            live: Seq::empty(),
            bindings: Seq::empty(),
            vendors: Seq::empty(),
            resolver: None,
            cursor: 0,
        }
    }

    /// The address of the interface chosen: the first one bound to it.
    pub open spec fn own_ip(self) -> Ipv4 {
        self.interface.unwrap().ipv4[0]
    }

    /// The hardware address of the interface chosen.
    pub open spec fn own_mac(self) -> MacAddr {
        self.interface.unwrap().hardware_address
    }

    /// The state of a run given up for the reason `e`.
    pub open spec fn aborted(self, e: DiscoveryError) -> DiscoveryState {
        DiscoveryState { stage: Stage::Done, failure: Some(e), ..self }
    }

    /// What is known of `target` without asking the network: the
    /// interface's own address has the interface's hardware address, any
    /// other is unresolved.
    pub open spec fn quick_binding(self, target: Ipv4) -> ArpBinding {
        if target == self.own_ip() {
            ArpBinding::spec_resolved(target, self.own_mac())
        } else {
            ArpBinding::spec_unresolved(target)
        }
    }

    /// The state with one more binding, whose vendor is not known, and no
    /// resolution in hand.
    pub open spec fn with_binding(self, b: ArpBinding) -> DiscoveryState {
        DiscoveryState {
            bindings: self.bindings.push(b),
            vendors: self.vendors.push(None),
            resolver: None,
            ..self
        }
    }

    /// The run ended before every live host was resolved: each host not
    /// reached gets the binding that needs no asking.
    pub open spec fn cut_short(self) -> DiscoveryState
        decreases self.live.len() - self.bindings.len(),
    {
        if self.bindings.len() >= self.live.len() {
            DiscoveryState { stage: Stage::Done, resolver: None, ..self }
        } else {
            self.with_binding(self.quick_binding(self.live[self.bindings.len() as int])).cut_short()
        }
    }

    /// Goes on with the vendor lookups from the binding at the cursor:
    /// unresolved hosts are passed over; the run is done at the end of the
    /// list, or where a lookup is due after the deadline.
    pub open spec fn advance_lookup(self, cfg: ConfigView, now_ms: u64) -> DiscoveryState
        decreases self.bindings.len() - self.cursor,
    {
        if self.cursor < 0 || self.cursor >= self.bindings.len() {
            DiscoveryState { stage: Stage::Done, ..self }
        } else if !self.bindings[self.cursor].resolved {
            DiscoveryState { cursor: self.cursor + 1, ..self }.advance_lookup(cfg, now_ms)
        } else if cfg.expired(now_ms) {
            DiscoveryState { stage: Stage::Done, ..self }
        } else {
            self
        }
    }

    /// Goes on with the next live host that has no binding: the interface's
    /// own address is bound at once; for any other a resolution is started,
    /// unless the deadline has passed, which ends the run. After the last
    /// host the vendor lookups begin.
    pub open spec fn advance_resolving(self, cfg: ConfigView, now_ms: u64) -> DiscoveryState
        decreases self.live.len() - self.bindings.len(),
    {
        if self.bindings.len() >= self.live.len() {
            DiscoveryState {
                stage: Stage::LookingUpVendors,
                resolver: None,
                cursor: 0,
                ..self
            }.advance_lookup(cfg, now_ms)
        } else {
            let target = self.live[self.bindings.len() as int];
            if target == self.own_ip() {
                self.with_binding(self.quick_binding(target)).advance_resolving(cfg, now_ms)
            } else if cfg.expired(now_ms) {
                self.cut_short()
            } else {
                DiscoveryState {
                    resolver: Some(
                        ArpResolver::initial(
                            self.own_mac(),
                            self.own_ip(),
                            target,
                            cfg.arp_attempts,
                            cfg.arp_timeout_ms,
                        ),
                    ),
                    ..self
                }
            }
        }
    }

    /// The state once the resolution in hand has moved on to `r`.
    pub open spec fn after_resolver_step(self, r: ArpResolver, cfg: ConfigView, now_ms: u64)
        -> DiscoveryState {
        if r.phase == ArpPhase::Finished {
            self.with_binding(r.binding).advance_resolving(cfg, now_ms)
        } else if cfg.expired(now_ms) {
            DiscoveryState { resolver: None, ..self }.cut_short()
        } else {
            DiscoveryState { resolver: Some(r), ..self }
        }
    }

    /// The state after `event`, which reaches the run at the time `now_ms`.
    /// An event that does not answer what the run asked for changes nothing.
    pub open spec fn next(self, cfg: ConfigView, event: EventView, now_ms: u64) -> DiscoveryState {
        match self.stage {
            Stage::Done => self,
            Stage::SelectingInterface => match event {
                EventView::Environment { privileged, interfaces, default_route_addr } => {
                    if !privileged {
                        self.aborted(DiscoveryError::InsufficientPrivilege)
                    } else {
                        match selection(interfaces, cfg.interface_name, default_route_addr) {
                            Err(e) => self.aborted(error_of(e)),
                            Ok(i) => DiscoveryState {
                                stage: Stage::EnumeratingCandidates,
                                interface: Some(interfaces[i]),
                                ..self
                            },
                        }
                    }
                },
                _ => self,
            },
            Stage::EnumeratingCandidates => match event {
                EventView::Continue => DiscoveryState {
                    stage: if cfg.expired(now_ms) {
                        Stage::Done
                    } else {
                        Stage::ProbingLiveness
                    },
                    candidates: cfg.source.candidates(self.own_ip()),
                    ..self
                },
                _ => self,
            },
            Stage::ProbingLiveness => match event {
                EventView::ProbeFinished { up } => DiscoveryState {
                    stage: Stage::ResolvingHardwareAddresses,
                    live: ascending_members(
                        Set::new(|a: Ipv4| self.candidates.contains(a) && up.contains(a)),
                    ),
                    ..self
                }.advance_resolving(cfg, now_ms),
                EventView::ProbeEngineUnavailable => self.aborted(
                    DiscoveryError::ProbeEngineUnavailable,
                ),
                _ => self,
            },
            Stage::ResolvingHardwareAddresses => match event.for_resolver() {
                Some(e) => self.after_resolver_step(self.resolver.unwrap().next(e), cfg, now_ms),
                None => self,
            },
            Stage::LookingUpVendors => match event {
                EventView::Vendor(answer) => DiscoveryState {
                    vendors: self.vendors.update(self.cursor, vendor_name_of(answer)),
                    cursor: self.cursor + 1,
                    ..self
                }.advance_lookup(cfg, now_ms),
                _ => self,
            },
        }
    }

    /// What the run asks of its caller in this state.
    pub open spec fn pending(self, cfg: ConfigView) -> ActionView {
        match self.stage {
            Stage::SelectingInterface => ActionView::SelectInterface { name: cfg.interface_name },
            Stage::EnumeratingCandidates => ActionView::Enumerate,
            Stage::ProbingLiveness => ActionView::Probe {
                candidates: self.candidates,
                timeout_ms: cfg.probe_timeout_ms,
            },
            Stage::ResolvingHardwareAddresses => match self.resolver.unwrap().pending() {
                ArpActionView::Send(bytes) => ActionView::SendFrame(bytes),
                ArpActionView::Receive { timeout_ms } => ActionView::ReceiveFrame { timeout_ms },
                ArpActionView::Done(b) => ActionView::Finished,
            },
            Stage::LookingUpVendors => ActionView::LookupVendor {
                mac: self.bindings[self.cursor].mac_address,
            },
            Stage::Done => match self.failure {
                Some(e) => ActionView::Aborted(e),
                None => ActionView::Finished,
            },
        }
    }

    /// The records of the report as far as it is known in this state.
    pub open spec fn records(self) -> Seq<crate::report::HostRecordView> {
        records_of(self.bindings, self.vendors)
    }

    /// What holds of every state that a run reaches.
    pub open spec fn wf(self, cfg: ConfigView) -> bool {
        &&& cfg.source.wf()
        &&& strictly_ascending(self.candidates)
        &&& strictly_ascending(self.live)
        &&& forall|a: Ipv4| self.live.contains(a) ==> self.candidates.contains(a)
        &&& self.bindings.len() == self.vendors.len()
        &&& self.bindings.len() <= self.live.len()
        &&& forall|i: int|
            0 <= i < self.bindings.len() ==> {
                &&& (#[trigger] self.bindings[i]).ip_address == self.live[i]
                &&& self.bindings[i].wf()
                &&& self.vendors[i].is_some() ==> self.bindings[i].resolved
                &&& self.bindings[i].ip_address == self.own_ip() ==> self.bindings[i]
                    == ArpBinding::spec_resolved(self.own_ip(), self.own_mac())
            }
        &&& self.failure.is_some() ==> self.stage == Stage::Done
        &&& self.stage == Stage::SelectingInterface ==> self == DiscoveryState::initial()
        &&& self.stage != Stage::SelectingInterface && self.failure.is_none()
            ==> self.interface.is_some() && self.interface.unwrap().ipv4.len() > 0
        &&& self.stage == Stage::EnumeratingCandidates ==> self.candidates.len() == 0
        &&& self.stage == Stage::EnumeratingCandidates || self.stage == Stage::ProbingLiveness
            ==> self.live.len() == 0
        &&& match self.resolver {
            Some(r) => {
                &&& self.stage == Stage::ResolvingHardwareAddresses
                &&& r.wf()
                &&& r.phase != ArpPhase::Finished
                &&& self.bindings.len() < self.live.len()
                &&& r.target_ip == self.live[self.bindings.len() as int]
                &&& r.target_ip != r.own_ip
                &&& r.own_ip == self.own_ip()
                &&& r.own_mac == self.own_mac()
                &&& r.attempts == cfg.arp_attempts
                &&& r.per_attempt_timeout_ms == cfg.arp_timeout_ms
            },
            None => self.stage != Stage::ResolvingHardwareAddresses,
        }
        &&& self.stage == Stage::LookingUpVendors ==> {
            &&& self.bindings.len() == self.live.len()
            &&& 0 <= self.cursor < self.bindings.len()
            &&& self.bindings[self.cursor].resolved
        }
        &&& self.stage == Stage::Done && self.failure.is_none() ==> self.bindings.len()
            == self.live.len()
    }
}

impl DiscoveryState {
    /// What holds while the hosts are gone through one after the other,
    /// whether or not a resolution is in hand.
    pub open spec fn wf_between(self, cfg: ConfigView) -> bool {
        &&& cfg.source.wf()
        &&& strictly_ascending(self.candidates)
        &&& strictly_ascending(self.live)
        &&& forall|a: Ipv4| self.live.contains(a) ==> self.candidates.contains(a)
        &&& self.bindings.len() == self.vendors.len()
        &&& self.bindings.len() <= self.live.len()
        &&& forall|i: int|
            0 <= i < self.bindings.len() ==> {
                &&& (#[trigger] self.bindings[i]).ip_address == self.live[i]
                &&& self.bindings[i].wf()
                &&& self.vendors[i].is_some() ==> self.bindings[i].resolved
                &&& self.bindings[i].ip_address == self.own_ip() ==> self.bindings[i]
                    == ArpBinding::spec_resolved(self.own_ip(), self.own_mac())
            }
        &&& self.failure.is_none()
        &&& self.interface.is_some()
        &&& self.interface.unwrap().ipv4.len() > 0
    }
}

/// Adding the binding of the next live host keeps the run in order.
pub proof fn lemma_with_binding(s: DiscoveryState, cfg: ConfigView, b: ArpBinding)
    requires
        s.wf_between(cfg),
        s.bindings.len() < s.live.len(),
        b.ip_address == s.live[s.bindings.len() as int],
        b.wf(),
        b.ip_address == s.own_ip() ==> b == ArpBinding::spec_resolved(s.own_ip(), s.own_mac()),
    ensures
        s.with_binding(b).wf_between(cfg),
        s.with_binding(b).stage == s.stage,
        s.with_binding(b).live == s.live,
        s.with_binding(b).bindings.len() == s.bindings.len() + 1,
{
    let t = s.with_binding(b);
    assert forall|i: int| 0 <= i < t.bindings.len() implies {
        &&& (#[trigger] t.bindings[i]).ip_address == t.live[i]
        &&& t.bindings[i].wf()
        &&& t.vendors[i].is_some() ==> t.bindings[i].resolved
        &&& t.bindings[i].ip_address == t.own_ip() ==> t.bindings[i] == ArpBinding::spec_resolved(
            t.own_ip(),
            t.own_mac(),
        )
    } by {
        if i < s.bindings.len() {
            assert(t.bindings[i] == s.bindings[i]);
            assert(t.vendors[i] == s.vendors[i]);
        }
    }
}

/// A run that is cut short is done, in order, and has a binding for every
/// live host; the bindings it had stay as they were.
pub proof fn lemma_cut_short(s: DiscoveryState, cfg: ConfigView)
    requires
        s.wf_between(cfg),
    ensures
        s.cut_short().wf(cfg),
        s.cut_short().stage == Stage::Done,
        s.cut_short().failure == s.failure,
        s.cut_short().live == s.live,
        s.cut_short().bindings.len() == s.live.len(),
        s.cut_short().bindings.take(s.bindings.len() as int) == s.bindings,
        s.cut_short().vendors.take(s.vendors.len() as int) == s.vendors,
        forall|i: int|
            s.bindings.len() <= i < s.live.len() ==> (#[trigger] s.cut_short().bindings[i])
                == s.quick_binding(s.live[i]),
    decreases s.live.len() - s.bindings.len(),
{
    if s.bindings.len() >= s.live.len() {
        assert(s.cut_short().bindings.take(s.bindings.len() as int) =~= s.bindings);
        assert(s.cut_short().vendors.take(s.vendors.len() as int) =~= s.vendors);
    } else {
        let b = s.quick_binding(s.live[s.bindings.len() as int]);
        let t = s.with_binding(b);
        lemma_with_binding(s, cfg, b);
        lemma_cut_short(t, cfg);
        let e = t.cut_short();
        assert forall|i: int| s.bindings.len() <= i < s.live.len() implies (#[trigger] e.bindings[i])
            == s.quick_binding(s.live[i]) by {
            if i == s.bindings.len() {
                assert(e.bindings.take(t.bindings.len() as int)[i] == t.bindings[i]);
            } else {
                assert(e.bindings[i] == t.quick_binding(t.live[i]));
            }
        }
        assert(e.bindings.take(s.bindings.len() as int) =~= e.bindings.take(
            t.bindings.len() as int,
        ).take(s.bindings.len() as int));
        assert(t.bindings.take(s.bindings.len() as int) =~= s.bindings);
        assert(e.vendors.take(s.vendors.len() as int) =~= e.vendors.take(
            t.vendors.len() as int,
        ).take(s.vendors.len() as int));
        assert(t.vendors.take(s.vendors.len() as int) =~= s.vendors);
    }
}

/// Going on with the vendor lookups keeps the run in order.
pub proof fn lemma_advance_lookup(s: DiscoveryState, cfg: ConfigView, now_ms: u64)
    requires
        s.wf_between(cfg),
        s.stage == Stage::LookingUpVendors,
        s.resolver.is_none(),
        s.bindings.len() == s.live.len(),
        0 <= s.cursor <= s.bindings.len(),
    ensures
        s.advance_lookup(cfg, now_ms).wf(cfg),
        s.advance_lookup(cfg, now_ms).live == s.live,
        s.advance_lookup(cfg, now_ms).bindings == s.bindings,
        s.advance_lookup(cfg, now_ms).vendors == s.vendors,
    decreases s.bindings.len() - s.cursor,
{
    if s.cursor < s.bindings.len() && !s.bindings[s.cursor].resolved {
        lemma_advance_lookup(DiscoveryState { cursor: s.cursor + 1, ..s }, cfg, now_ms);
    }
}

/// Going on with the next live host keeps the run in order, and the live
/// hosts and the bindings already made stay as they were.
pub proof fn lemma_advance_resolving(s: DiscoveryState, cfg: ConfigView, now_ms: u64)
    requires
        s.wf_between(cfg),
        s.stage == Stage::ResolvingHardwareAddresses,
        s.resolver.is_none(),
    ensures
        s.advance_resolving(cfg, now_ms).wf(cfg),
        s.advance_resolving(cfg, now_ms).live == s.live,
        s.advance_resolving(cfg, now_ms).bindings.len() >= s.bindings.len(),
        s.advance_resolving(cfg, now_ms).bindings.take(s.bindings.len() as int) == s.bindings,
    decreases s.live.len() - s.bindings.len(),
{
    let e = s.advance_resolving(cfg, now_ms);
    if s.bindings.len() >= s.live.len() {
        let t = DiscoveryState { stage: Stage::LookingUpVendors, resolver: None, cursor: 0, ..s };
        lemma_advance_lookup(t, cfg, now_ms);
        assert(e.bindings.take(s.bindings.len() as int) =~= s.bindings);
    } else {
        let target = s.live[s.bindings.len() as int];
        if target == s.own_ip() {
            let b = s.quick_binding(target);
            let t = s.with_binding(b);
            lemma_with_binding(s, cfg, b);
            lemma_advance_resolving(t, cfg, now_ms);
            assert(e.bindings.take(s.bindings.len() as int) =~= e.bindings.take(
                t.bindings.len() as int,
            ).take(s.bindings.len() as int));
            assert(t.bindings.take(s.bindings.len() as int) =~= s.bindings);
        } else if cfg.expired(now_ms) {
            lemma_cut_short(s, cfg);
        } else {
            assert(e.bindings.take(s.bindings.len() as int) =~= s.bindings);
        }
    }
}

/// Every state that a run reaches from a state in order is in order.
pub proof fn lemma_next_wf(s: DiscoveryState, cfg: ConfigView, event: EventView, now_ms: u64)
    requires
        s.wf(cfg),
    ensures
        s.next(cfg, event, now_ms).wf(cfg),
{
    match s.stage {
        Stage::Done => {},
        Stage::SelectingInterface => match event {
            EventView::Environment { privileged, interfaces, default_route_addr } => {
                if privileged {
                    match selection(interfaces, cfg.interface_name, default_route_addr) {
                        Err(e) => {},
                        Ok(i) => {
                            crate::iface::lemma_selection(
                                interfaces,
                                cfg.interface_name,
                                default_route_addr,
                            );
                        },
                    }
                }
            },
            _ => {},
        },
        Stage::EnumeratingCandidates => match event {
            EventView::Continue => {
                lemma_source_candidates(cfg.source, s.own_ip());
            },
            _ => {},
        },
        Stage::ProbingLiveness => match event {
            EventView::ProbeFinished { up } => {
                let members = Set::new(|a: Ipv4| s.candidates.contains(a) && up.contains(a));
                lemma_live_exists(s.candidates, up);
                let t = DiscoveryState {
                    stage: Stage::ResolvingHardwareAddresses,
                    live: ascending_members(members),
                    ..s
                };
                assert(t.wf_between(cfg));
                lemma_advance_resolving(t, cfg, now_ms);
            },
            _ => {},
        },
        Stage::ResolvingHardwareAddresses => match event.for_resolver() {
            Some(e) => {
                let r0 = s.resolver.unwrap();
                let r = r0.next(e);
                lemma_next_preserves(r0, e);
                let between = DiscoveryState { resolver: None, ..s };
                assert(between.wf_between(cfg));
                if r.phase == ArpPhase::Finished {
                    lemma_with_binding(between, cfg, r.binding);
                    assert(s.with_binding(r.binding) == between.with_binding(r.binding));
                    lemma_advance_resolving(s.with_binding(r.binding), cfg, now_ms);
                } else if cfg.expired(now_ms) {
                    lemma_cut_short(between, cfg);
                }
            },
            None => {},
        },
        Stage::LookingUpVendors => match event {
            EventView::Vendor(answer) => {
                let t = DiscoveryState {
                    vendors: s.vendors.update(s.cursor, vendor_name_of(answer)),
                    cursor: s.cursor + 1,
                    ..s
                };
                assert(t.wf_between(cfg));
                lemma_advance_lookup(t, cfg, now_ms);
            },
            _ => {},
        },
    }
}

/// After the deadline the vendor lookups end the run and leave the bindings
/// as they are.
proof fn lemma_late_lookup(s: DiscoveryState, cfg: ConfigView, now_ms: u64)
    requires
        cfg.expired(now_ms),
        0 <= s.cursor,
    ensures
        s.advance_lookup(cfg, now_ms).stage == Stage::Done,
        s.advance_lookup(cfg, now_ms).failure == s.failure,
        s.advance_lookup(cfg, now_ms).bindings == s.bindings,
    decreases s.bindings.len() - s.cursor,
{
    if s.cursor < s.bindings.len() && !s.bindings[s.cursor].resolved {
        lemma_late_lookup(DiscoveryState { cursor: s.cursor + 1, ..s }, cfg, now_ms);
    }
}

/// After the deadline, going on with the next live host ends the run: each
/// host without a binding gets the one that needs no asking.
proof fn lemma_late_resolving(s: DiscoveryState, cfg: ConfigView, now_ms: u64)
    requires
        s.wf_between(cfg),
        s.stage == Stage::ResolvingHardwareAddresses,
        s.resolver.is_none(),
        cfg.expired(now_ms),
    ensures
        s.advance_resolving(cfg, now_ms).stage == Stage::Done,
        s.advance_resolving(cfg, now_ms).failure.is_none(),
        s.advance_resolving(cfg, now_ms).bindings.len() == s.live.len(),
        forall|i: int|
            s.bindings.len() <= i < s.live.len() ==> (#[trigger] s.advance_resolving(
                cfg,
                now_ms,
            ).bindings[i]) == s.quick_binding(s.live[i]),
    decreases s.live.len() - s.bindings.len(),
{
    let e = s.advance_resolving(cfg, now_ms);
    if s.bindings.len() >= s.live.len() {
        let t = DiscoveryState { stage: Stage::LookingUpVendors, resolver: None, cursor: 0, ..s };
        lemma_late_lookup(t, cfg, now_ms);
    } else {
        let target = s.live[s.bindings.len() as int];
        if target == s.own_ip() {
            let b = s.quick_binding(target);
            let t = s.with_binding(b);
            lemma_with_binding(s, cfg, b);
            lemma_late_resolving(t, cfg, now_ms);
            lemma_advance_resolving(t, cfg, now_ms);
            assert forall|i: int| s.bindings.len() <= i < s.live.len() implies (
            #[trigger] e.bindings[i]) == s.quick_binding(s.live[i]) by {
                if i == s.bindings.len() {
                    assert(e.bindings.take(t.bindings.len() as int)[i] == t.bindings[i]);
                } else {
                    assert(e.bindings[i] == t.quick_binding(t.live[i]));
                }
            }
        } else {
            lemma_cut_short(s, cfg);
        }
    }
}

/// No step loses what a run has found: the bindings made before the step
/// are the first bindings after it, and once the live hosts are known they
/// stay the same.
pub proof fn lemma_progress_is_kept(
    s: DiscoveryState,
    cfg: ConfigView,
    event: EventView,
    now_ms: u64,
)
    requires
        s.wf(cfg),
    ensures
        s.next(cfg, event, now_ms).bindings.len() >= s.bindings.len(),
        s.next(cfg, event, now_ms).bindings.take(s.bindings.len() as int) == s.bindings,
        s.stage == Stage::ResolvingHardwareAddresses || s.stage == Stage::LookingUpVendors
            || s.stage == Stage::Done ==> s.next(cfg, event, now_ms).live == s.live,
{
    let n = s.next(cfg, event, now_ms);
    match s.stage {
        Stage::ProbingLiveness => match event {
            EventView::ProbeFinished { up } => {
                let members = Set::new(|a: Ipv4| s.candidates.contains(a) && up.contains(a));
                lemma_live_exists(s.candidates, up);
                let t = DiscoveryState {
                    stage: Stage::ResolvingHardwareAddresses,
                    live: ascending_members(members),
                    ..s
                };
                assert(t.wf_between(cfg));
                lemma_advance_resolving(t, cfg, now_ms);
            },
            _ => {},
        },
        Stage::ResolvingHardwareAddresses => match event.for_resolver() {
            Some(e) => {
                let r0 = s.resolver.unwrap();
                let r = r0.next(e);
                lemma_next_preserves(r0, e);
                let between = DiscoveryState { resolver: None, ..s };
                assert(between.wf_between(cfg));
                if r.phase == ArpPhase::Finished {
                    let t = s.with_binding(r.binding);
                    lemma_with_binding(between, cfg, r.binding);
                    assert(t == between.with_binding(r.binding));
                    lemma_advance_resolving(t, cfg, now_ms);
                    assert(n.bindings.take(s.bindings.len() as int) =~= n.bindings.take(
                        t.bindings.len() as int,
                    ).take(s.bindings.len() as int));
                    assert(t.bindings.take(s.bindings.len() as int) =~= s.bindings);
                } else if cfg.expired(now_ms) {
                    lemma_cut_short(between, cfg);
                }
            },
            None => {},
        },
        Stage::LookingUpVendors => match event {
            EventView::Vendor(answer) => {
                let t = DiscoveryState {
                    vendors: s.vendors.update(s.cursor, vendor_name_of(answer)),
                    cursor: s.cursor + 1,
                    ..s
                };
                assert(t.wf_between(cfg));
                lemma_advance_lookup(t, cfg, now_ms);
            },
            _ => {},
        },
        _ => {},
    }
    assert(n.bindings.take(s.bindings.len() as int) =~= s.bindings);
}

/// A deadline that passes while hardware addresses are being resolved cuts
/// no host out of the report. Whatever the channel reports next ends the
/// run without a failure; the bindings made so far stay; the host in hand
/// keeps its answer where this was its answer; and every live host not yet
/// reached is in the report all the same, unresolved with the zero hardware
/// address, or with the interface's own hardware address where it is the
/// interface's own address.
pub proof fn lemma_deadline_keeps_every_host(
    s: DiscoveryState,
    cfg: ConfigView,
    event: EventView,
    now_ms: u64,
)
    requires
        s.wf(cfg),
        s.stage == Stage::ResolvingHardwareAddresses,
        event.for_resolver().is_some(),
        cfg.expired(now_ms),
    ensures
        s.next(cfg, event, now_ms).stage == Stage::Done,
        s.next(cfg, event, now_ms).failure.is_none(),
        s.next(cfg, event, now_ms).live == s.live,
        s.next(cfg, event, now_ms).records().len() == s.live.len(),
        forall|i: int|
            0 <= i < s.live.len() ==> (#[trigger] s.next(cfg, event, now_ms).records()[i]).ip_address
                == s.live[i],
        s.next(cfg, event, now_ms).bindings.take(s.bindings.len() as int) == s.bindings,
        s.resolver.unwrap().next(event.for_resolver().unwrap()).phase == ArpPhase::Finished
            ==> s.next(cfg, event, now_ms).bindings[s.bindings.len() as int]
            == s.resolver.unwrap().next(event.for_resolver().unwrap()).binding,
        s.resolver.unwrap().next(event.for_resolver().unwrap()).phase != ArpPhase::Finished
            ==> s.next(cfg, event, now_ms).bindings[s.bindings.len() as int]
            == ArpBinding::spec_unresolved(s.live[s.bindings.len() as int]),
        forall|i: int|
            s.bindings.len() < i < s.live.len() ==> (#[trigger] s.next(
                cfg,
                event,
                now_ms,
            ).bindings[i]) == s.quick_binding(s.live[i]),
{
    let n = s.next(cfg, event, now_ms);
    let e = event.for_resolver().unwrap();
    let r0 = s.resolver.unwrap();
    let r = r0.next(e);
    lemma_next_preserves(r0, e);
    lemma_next_wf(s, cfg, event, now_ms);
    lemma_progress_is_kept(s, cfg, event, now_ms);
    let between = DiscoveryState { resolver: None, ..s };
    assert(between.wf_between(cfg));
    if r.phase == ArpPhase::Finished {
        let t = s.with_binding(r.binding);
        lemma_with_binding(between, cfg, r.binding);
        assert(t == between.with_binding(r.binding));
        lemma_late_resolving(t, cfg, now_ms);
        lemma_advance_resolving(t, cfg, now_ms);
        assert(n.bindings.take(t.bindings.len() as int)[s.bindings.len() as int]
            == t.bindings[s.bindings.len() as int]);
        assert forall|i: int| s.bindings.len() < i < s.live.len() implies (#[trigger] n.bindings[i])
            == s.quick_binding(s.live[i]) by {
            assert(n.bindings[i] == t.quick_binding(t.live[i]));
        }
    } else {
        lemma_cut_short(between, cfg);
        assert(n.bindings[s.bindings.len() as int] == between.quick_binding(
            s.live[s.bindings.len() as int],
        ));
        assert forall|i: int| s.bindings.len() < i < s.live.len() implies (#[trigger] n.bindings[i])
            == s.quick_binding(s.live[i]) by {
            assert(n.bindings[i] == between.quick_binding(between.live[i]));
        }
    }
    assert forall|i: int| 0 <= i < s.live.len() implies (#[trigger] n.records()[i]).ip_address
        == s.live[i] by {
        assert(n.bindings[i].ip_address == n.live[i]);
    }
}

/// Every host of the report replied to its probe and was a candidate, each
/// host stands in it once, in ascending order of address, and an unresolved
/// host has the zero hardware address and no vendor.
pub proof fn lemma_report_is_of_live_candidates(s: DiscoveryState, cfg: ConfigView)
    requires
        s.wf(cfg),
    ensures
        s.records().len() <= s.live.len(),
        ascending_records(s.records()),
        forall|i: int|
            0 <= i < s.records().len() ==> {
                &&& (#[trigger] s.records()[i]).ip_address == s.live[i]
                &&& s.live.contains(s.records()[i].ip_address)
                &&& s.candidates.contains(s.records()[i].ip_address)
                &&& s.records()[i].wf()
            },
{
    let r = s.records();
    assert forall|i: int| 0 <= i < r.len() implies {
        &&& (#[trigger] r[i]).ip_address == s.live[i]
        &&& s.live.contains(r[i].ip_address)
        &&& s.candidates.contains(r[i].ip_address)
        &&& r[i].wf()
    } by {
        assert(s.bindings[i].ip_address == s.live[i]);
        assert(s.bindings[i].wf());
        assert(s.live.contains(s.live[i]));
    }
    assert forall|i: int, j: int| 0 <= i < j < r.len() implies r[i].ip_address.bits
        < r[j].ip_address.bits by {
        assert(s.bindings[i].ip_address == s.live[i]);
        assert(s.bindings[j].ip_address == s.live[j]);
    }
}

/// While hardware addresses are being resolved, a run asks of the channel
/// only what the resolution of the live host in hand needs: to send the
/// request for that host, or to read one frame with the timeout of one
/// read. That host is never the interface's own address, which is bound
/// without a frame.
pub proof fn lemma_frames_are_for_other_hosts(s: DiscoveryState, cfg: ConfigView)
    requires
        s.wf(cfg),
        s.stage == Stage::ResolvingHardwareAddresses,
    ensures
        s.bindings.len() < s.live.len(),
        s.live[s.bindings.len() as int] != s.own_ip(),
        match s.pending(cfg) {
            ActionView::SendFrame(bytes) => bytes == frame_bytes(
                request_frame(s.own_mac(), s.own_ip(), s.live[s.bindings.len() as int]),
            ),
            ActionView::ReceiveFrame { timeout_ms } => timeout_ms == cfg.arp_timeout_ms,
            _ => false,
        },
        forall|i: int|
            0 <= i < s.bindings.len() && s.live[i] == s.own_ip() ==> (#[trigger] s.bindings[i])
                == ArpBinding::spec_resolved(s.own_ip(), s.own_mac()),
{
}

/// The candidates that a source gives are in ascending order.
pub proof fn lemma_source_candidates(source: SourceView, own_ip: Ipv4)
    requires
        source.wf(),
    ensures
        strictly_ascending(source.candidates(own_ip)),
{
    match source {
        SourceView::InterfaceBlock { prefix } => {
            lemma_candidates_of_block(own_ip, prefix);
        },
        SourceView::Block { base, prefix } => {
            lemma_candidates_of_block(base, prefix);
        },
        SourceView::Addresses(list) => {
            lemma_ascending_exists(list);
        },
    }
}

/// Some sequence lists the addresses of `list` in ascending order.
pub proof fn lemma_ascending_exists(list: Seq<Ipv4>)
    ensures
        lists_ascending(ascending_members(list.to_set()), list.to_set()),
    decreases list.len(),
{
    if list.len() == 0 {
        let e = Seq::<Ipv4>::empty();
        assert(lists_ascending(e, list.to_set()));
    } else {
        let front = list.drop_last();
        let x = list.last();
        lemma_ascending_exists(front);
        let s = ascending_members(front.to_set());
        assert forall|a: Ipv4| list.contains(a) <==> (front.contains(a) || a == x) by {
            if list.contains(a) {
                let i = choose|i: int| 0 <= i < list.len() && list[i] == a;
                if i < front.len() {
                    assert(front[i] == a);
                }
            }
            if front.contains(a) {
                let i = choose|i: int| 0 <= i < front.len() && front[i] == a;
                assert(list[i] == a);
            }
            if a == x {
                assert(list[list.len() - 1] == a);
            }
        }
        if s.contains(x) {
            assert(lists_ascending(s, list.to_set()));
        } else {
            let k = crate::candidates::rank_of(s, x);
            crate::candidates::lemma_rank_of(s, x);
            let t = s.insert(k, x);
            assert forall|i: int, j: int| 0 <= i < j < t.len() implies t[i].bits < t[j].bits by {
                let bi: int = if i < k {
                    i
                } else {
                    i - 1
                };
                let bj: int = if j < k {
                    j
                } else {
                    j - 1
                };
                if i != k && j != k {
                    assert(t[i] == s[bi]);
                    assert(t[j] == s[bj]);
                } else if i == k {
                    assert(t[j] == s[bj]);
                    assert(s.contains(s[bj]));
                } else {
                    assert(t[i] == s[bi]);
                    assert(s.contains(s[bi]));
                }
            }
            assert forall|a: Ipv4| t.contains(a) <==> list.to_set().contains(a) by {
                if t.contains(a) {
                    let i = choose|i: int| 0 <= i < t.len() && t[i] == a;
                    if i < k {
                        assert(s[i] == a);
                    } else if i > k {
                        assert(s[i - 1] == a);
                    }
                }
                if s.contains(a) {
                    let i = choose|i: int| 0 <= i < s.len() && s[i] == a;
                    if i < k {
                        assert(t[i] == a);
                    } else {
                        assert(t[i + 1] == a);
                    }
                }
                if a == x {
                    assert(t[k] == a);
                }
            }
            assert(lists_ascending(t, list.to_set()));
        }
    }
}

/// The live hosts that a probe report gives are candidates in ascending
/// order.
pub proof fn lemma_live_exists(candidates: Seq<Ipv4>, up: Seq<Ipv4>)
    requires
        strictly_ascending(candidates),
    ensures
        lists_ascending(
            ascending_members(Set::new(|a: Ipv4| candidates.contains(a) && up.contains(a))),
            Set::new(|a: Ipv4| candidates.contains(a) && up.contains(a)),
        ),
    decreases candidates.len(),
{
    let members = Set::new(|a: Ipv4| candidates.contains(a) && up.contains(a));
    if candidates.len() == 0 {
        assert(lists_ascending(Seq::<Ipv4>::empty(), members));
    } else {
        let front = candidates.drop_last();
        let x = candidates.last();
        let front_members = Set::new(|a: Ipv4| front.contains(a) && up.contains(a));
        assert forall|i: int, j: int| 0 <= i < j < front.len() implies front[i].bits
            < front[j].bits by {
            assert(front[i] == candidates[i]);
            assert(front[j] == candidates[j]);
        }
        lemma_live_exists(front, up);
        let s = ascending_members(front_members);
        assert forall|a: Ipv4| candidates.contains(a) <==> (front.contains(a) || a == x) by {
            if candidates.contains(a) {
                let i = choose|i: int| 0 <= i < candidates.len() && candidates[i] == a;
                if i < front.len() {
                    assert(front[i] == a);
                }
            }
            if front.contains(a) {
                let i = choose|i: int| 0 <= i < front.len() && front[i] == a;
                assert(candidates[i] == a);
            }
            if a == x {
                assert(candidates[candidates.len() - 1] == a);
            }
        }
        if up.contains(x) {
            let t = s.push(x);
            assert forall|i: int, j: int| 0 <= i < j < t.len() implies t[i].bits < t[j].bits by {
                if j == s.len() {
                    assert(s.contains(s[i]));
                    assert(front.contains(s[i]));
                    let k = choose|k: int| 0 <= k < front.len() && front[k] == s[i];
                    assert(candidates[k].bits < candidates[candidates.len() - 1].bits);
                }
            }
            assert forall|a: Ipv4| t.contains(a) <==> members.contains(a) by {
                if t.contains(a) {
                    let i = choose|i: int| 0 <= i < t.len() && t[i] == a;
                    if i < s.len() {
                        assert(s[i] == a);
                        assert(s.contains(a));
                    }
                }
                if s.contains(a) {
                    let i = choose|i: int| 0 <= i < s.len() && s[i] == a;
                    assert(t[i] == a);
                }
                if a == x {
                    assert(t[s.len() as int] == a);
                }
            }
            assert(lists_ascending(t, members));
        } else {
            assert(lists_ascending(s, members));
        }
    }
}

/// One discovery run.
#[derive(Debug)]
pub struct Discovery {
    config: DiscoveryConfig,
    stage: Stage,
    failure: Option<DiscoveryError>,
    interface: Option<NetworkInterface>,
    candidates: CandidateSet,
    live: CandidateSet,
    bindings: Vec<ArpBinding>,
    vendors: Vec<Option<String>>,
    resolver: Option<ArpResolver>,
    cursor: usize,
}

impl View for Discovery {
    type V = DiscoveryState;

    closed spec fn view(&self) -> DiscoveryState {
        DiscoveryState {
            stage: self.stage,
            failure: self.failure,
            interface: match self.interface {
                Some(i) => Some(i@),
                None => None,
            },
            candidates: self.candidates@,
            live: self.live@,
            bindings: self.bindings@,
            vendors: self.vendors.deep_view(),
            resolver: self.resolver,
            cursor: self.cursor as int,
        }
    }
}

impl Discovery {
    /// What the run was asked to do.
    pub closed spec fn config(&self) -> ConfigView {
        self.config@
    }

    /// The state is one that a run can reach.
    pub open spec fn wf(&self) -> bool {
        self@.wf(self.config())
    }

    /// A run that has not begun.
    pub fn new(config: DiscoveryConfig) -> (r: Discovery)
        requires
            config@.source.wf(),
        ensures
            r.wf(),
            r@ == DiscoveryState::initial(),
            r.config() == config@,
    {
        let r = Discovery {
            config,
            stage: Stage::SelectingInterface,
            failure: None,
            interface: None,
            candidates: CandidateSet::empty(),
            live: CandidateSet::empty(),
            bindings: Vec::new(),
            vendors: Vec::new(),
            resolver: None,
            cursor: 0,
        };
        proof {
            assert(r.vendors.deep_view() =~= Seq::<Option<Seq<char>>>::empty());
            assert(r@ == DiscoveryState::initial());
        }
        r
    }

    fn expired(&self, now_ms: u64) -> (r: bool)
        ensures
            r == self.config().expired(now_ms),
    {
        match self.config.deadline_ms {
            Some(d) => now_ms >= d,
            None => false,
        }
    }

    fn push_binding(&mut self, b: ArpBinding)
        ensures
            final(self)@ == old(self)@.with_binding(b),
            final(self).config() == old(self).config(),
    {
        self.bindings.push(b);
        self.vendors.push(None);
        self.resolver = None;
        proof {
            assert(self.vendors.deep_view() =~= old(self).vendors.deep_view().push(None));
        }
    }

    fn own_ip(&self) -> (r: Ipv4)
        requires
            self@.interface.is_some(),
            self@.interface.unwrap().ipv4.len() > 0,
        ensures
            r == self@.own_ip(),
    {
        match &self.interface {
            Some(i) => i.ipv4[0],
            None => Ipv4 { bits: 0 },
        }
    }

    fn own_mac(&self) -> (r: MacAddr)
        requires
            self@.interface.is_some(),
        ensures
            r == self@.own_mac(),
    {
        match &self.interface {
            Some(i) => i.hardware_address,
            None => MacAddr::zero(),
        }
    }

    fn quick_binding(&self, target: Ipv4) -> (b: ArpBinding)
        requires
            self@.interface.is_some(),
            self@.interface.unwrap().ipv4.len() > 0,
        ensures
            b == self@.quick_binding(target),
    {
        if target == self.own_ip() {
            ArpBinding::resolved(target, self.own_mac())
        } else {
            ArpBinding::unresolved(target)
        }
    }

    fn cut_short(&mut self)
        requires
            old(self)@.interface.is_some(),
            old(self)@.interface.unwrap().ipv4.len() > 0,
        ensures
            final(self)@ == old(self)@.cut_short(),
            final(self).config() == old(self).config(),
    {
        while self.bindings.len() < self.live.len()
            invariant
                self@.interface.is_some(),
                self@.interface.unwrap().ipv4.len() > 0,
                self@.cut_short() == old(self)@.cut_short(),
                self.config() == old(self).config(),
            decreases self.live@.len() - self.bindings@.len(),
        {
            let target: Ipv4 = self.live.get(self.bindings.len());
            let b = self.quick_binding(target);
            self.push_binding(b);
        }
        self.stage = Stage::Done;
        self.resolver = None;
    }

    fn advance_lookup(&mut self, now_ms: u64)
        requires
            old(self)@.bindings.len() == old(self)@.vendors.len(),
        ensures
            final(self)@ == old(self)@.advance_lookup(old(self).config(), now_ms),
            final(self).config() == old(self).config(),
    {
        while self.cursor < self.bindings.len() && !self.bindings[self.cursor].resolved
            invariant
                self@.advance_lookup(self.config(), now_ms) == old(self)@.advance_lookup(
                    old(self).config(),
                    now_ms,
                ),
                self.config() == old(self).config(),
            decreases self.bindings@.len() - self.cursor,
        {
            self.cursor = self.cursor + 1;
        }
        if self.cursor >= self.bindings.len() || self.expired(now_ms) {
            self.stage = Stage::Done;
        }
    }

    fn advance_resolving(&mut self, now_ms: u64)
        requires
            old(self)@.interface.is_some(),
            old(self)@.interface.unwrap().ipv4.len() > 0,
            old(self)@.bindings.len() == old(self)@.vendors.len(),
        ensures
            final(self)@ == old(self)@.advance_resolving(old(self).config(), now_ms),
            final(self).config() == old(self).config(),
    {
        while self.bindings.len() < self.live.len() && self.live.get(self.bindings.len())
            == self.own_ip()
            invariant
                self@.interface.is_some(),
                self@.interface.unwrap().ipv4.len() > 0,
                self@.bindings.len() == self@.vendors.len(),
                self@.advance_resolving(self.config(), now_ms) == old(self)@.advance_resolving(
                    old(self).config(),
                    now_ms,
                ),
                self.config() == old(self).config(),
            decreases self.live@.len() - self.bindings@.len(),
        {
            let target: Ipv4 = self.live.get(self.bindings.len());
            let b = self.quick_binding(target);
            self.push_binding(b);
        }
        if self.bindings.len() >= self.live.len() {
            self.stage = Stage::LookingUpVendors;
            self.resolver = None;
            self.cursor = 0;
            self.advance_lookup(now_ms);
        } else if self.expired(now_ms) {
            self.cut_short();
        } else {
            let target: Ipv4 = self.live.get(self.bindings.len());
            let r = ArpResolver::start_between(
                self.own_mac(),
                self.own_ip(),
                target,
                self.config.arp_attempts,
                self.config.arp_timeout_ms,
            );
            self.resolver = Some(r);
        }
    }
}

impl DiscoveryError {
    /// The reason for giving up that a failed choice of interface stands for.
    pub fn from_select(e: SelectError) -> (r: DiscoveryError)
        ensures
            r == error_of(e),
    {
        match e {
            SelectError::InterfaceNotFound => DiscoveryError::InterfaceNotFound,
            SelectError::NoDefaultInterface => DiscoveryError::NoDefaultInterface,
            SelectError::NoIPv4Address => DiscoveryError::NoIPv4Address,
        }
    }
}

impl Discovery {
    fn abort(&mut self, e: DiscoveryError)
        ensures
            final(self)@ == old(self)@.aborted(e),
            final(self).config() == old(self).config(),
    {
        self.stage = Stage::Done;
        self.failure = Some(e);
    }

    fn on_environment(
        &mut self,
        privileged: bool,
        interfaces: Vec<NetworkInterface>,
        default_route_addr: Option<Ipv4>,
    )
        requires
            old(self)@.stage == Stage::SelectingInterface,
        ensures
            final(self)@ == old(self)@.next(
                old(self).config(),
                EventView::Environment {
                    privileged,
                    interfaces: interface_views(interfaces@),
                    default_route_addr,
                },
                0,
            ),
            final(self).config() == old(self).config(),
    {
        if !privileged {
            self.abort(DiscoveryError::InsufficientPrivilege);
        } else {
            match select(&interfaces, &self.config.interface_name, default_route_addr) {
                Err(e) => {
                    self.abort(DiscoveryError::from_select(e));
                },
                Ok(chosen) => {
                    proof {
                        let views = interface_views(interfaces@);
                        crate::iface::lemma_selection(
                            views,
                            self.config().interface_name,
                            default_route_addr,
                        );
                        let i = selection(
                            views,
                            self.config().interface_name,
                            default_route_addr,
                        )->Ok_0;
                        assert(views[i] == interfaces@[i]@);
                    }
                    self.stage = Stage::EnumeratingCandidates;
                    self.interface = Some(chosen);
                },
            }
        }
    }

    fn on_continue(&mut self, now_ms: u64)
        requires
            old(self)@.stage == Stage::EnumeratingCandidates,
            old(self)@.interface.is_some(),
            old(self)@.interface.unwrap().ipv4.len() > 0,
            old(self).config().source.wf(),
        ensures
            final(self)@ == old(self)@.next(old(self).config(), EventView::Continue, now_ms),
            final(self).config() == old(self).config(),
    {
        let own: Ipv4 = self.own_ip();
        let found = match &self.config.source {
            CandidateSource::InterfaceBlock { prefix } => CandidateSet::of_block(own, *prefix),
            CandidateSource::Block { base, prefix } => CandidateSet::of_block(*base, *prefix),
            CandidateSource::Addresses(list) => CandidateSet::from_addresses(list),
        };
        self.candidates = found;
        if self.expired(now_ms) {
            self.stage = Stage::Done;
        } else {
            self.stage = Stage::ProbingLiveness;
        }
    }

    fn on_probe_finished(&mut self, up: Vec<Ipv4>, now_ms: u64)
        requires
            old(self)@.stage == Stage::ProbingLiveness,
            old(self)@.interface.is_some(),
            old(self)@.interface.unwrap().ipv4.len() > 0,
            old(self)@.bindings.len() == old(self)@.vendors.len(),
            strictly_ascending(old(self)@.candidates),
        ensures
            final(self)@ == old(self)@.next(
                old(self).config(),
                EventView::ProbeFinished { up: up@ },
                now_ms,
            ),
            final(self).config() == old(self).config(),
    {
        let replied = CandidateSet::from_addresses(&up);
        let live = self.candidates.intersect(&replied);
        proof {
            let a = Set::new(|a: Ipv4| self.candidates@.contains(a) && replied@.contains(a));
            let b = Set::new(|a: Ipv4| self.candidates@.contains(a) && up@.contains(a));
            assert(a =~= b);
        }
        self.live = live;
        self.stage = Stage::ResolvingHardwareAddresses;
        self.advance_resolving(now_ms);
    }

    fn on_resolver_event(&mut self, event: ArpEvent, now_ms: u64)
        requires
            old(self)@.stage == Stage::ResolvingHardwareAddresses,
            old(self)@.resolver.is_some(),
            old(self)@.resolver.unwrap().wf(),
            old(self)@.interface.is_some(),
            old(self)@.interface.unwrap().ipv4.len() > 0,
            old(self)@.bindings.len() == old(self)@.vendors.len(),
        ensures
            final(self)@ == old(self)@.after_resolver_step(
                old(self)@.resolver.unwrap().next(event@),
                old(self).config(),
                now_ms,
            ),
            final(self).config() == old(self).config(),
    {
        let mut r: ArpResolver = match self.resolver {
            Some(r) => r,
            None => ArpResolver::start_between(
                MacAddr::zero(),
                Ipv4 { bits: 0 },
                Ipv4 { bits: 0 },
                0,
                0,
            ),
        };
        r.on_event(&event);
        if r.is_finished() {
            self.push_binding(r.binding);
            self.advance_resolving(now_ms);
        } else if self.expired(now_ms) {
            self.resolver = None;
            self.cut_short();
        } else {
            self.resolver = Some(r);
        }
    }

    fn on_vendor(&mut self, answer: Option<VendorInfo>, now_ms: u64)
        requires
            old(self)@.stage == Stage::LookingUpVendors,
            old(self)@.bindings.len() == old(self)@.vendors.len(),
            0 <= old(self)@.cursor < old(self)@.bindings.len(),
        ensures
            final(self)@ == old(self)@.next(
                old(self).config(),
                EventView::Vendor(
                    match answer {
                        Some(info) => Some(info@),
                        None => None,
                    },
                ),
                now_ms,
            ),
            final(self).config() == old(self).config(),
    {
        let name: Option<String> = match answer {
            Some(info) => info.detailed_name,
            None => None,
        };
        let ghost shown = name.deep_view();
        let n: usize = self.bindings.len();
        self.vendors.set(self.cursor, name);
        proof {
            assert(self.vendors.deep_view() =~= old(self).vendors.deep_view().update(
                old(self)@.cursor,
                shown,
            ));
        }
        self.cursor = self.cursor + 1;
        self.advance_lookup(now_ms);
    }

    /// Takes in what happened, at the time `now_ms` on the caller's clock,
    /// and says what to do next.
    pub fn step(&mut self, event: Event, now_ms: u64) -> (action: Action)
        requires
            old(self).wf(),
        ensures
            final(self).wf(),
            final(self)@ == old(self)@.next(old(self).config(), event@, now_ms),
            final(self).config() == old(self).config(),
            action@ == final(self)@.pending(final(self).config()),
    {
        proof {
            lemma_next_wf(self@, self.config(), event@, now_ms);
        }
        match self.stage {
            Stage::Done => {},
            Stage::SelectingInterface => match event {
                Event::Environment { privileged, interfaces, default_route_addr } => {
                    self.on_environment(privileged, interfaces, default_route_addr);
                },
                _ => {},
            },
            Stage::EnumeratingCandidates => match event {
                Event::Continue => {
                    self.on_continue(now_ms);
                },
                _ => {},
            },
            Stage::ProbingLiveness => match event {
                Event::ProbeFinished { up } => {
                    self.on_probe_finished(up, now_ms);
                },
                Event::ProbeEngineUnavailable => {
                    self.abort(DiscoveryError::ProbeEngineUnavailable);
                },
                _ => {},
            },
            Stage::ResolvingHardwareAddresses => match event {
                Event::FrameSent => {
                    self.on_resolver_event(ArpEvent::Sent, now_ms);
                },
                Event::FrameSendFailed => {
                    self.on_resolver_event(ArpEvent::SendFailed, now_ms);
                },
                Event::FrameReceived(bytes) => {
                    self.on_resolver_event(ArpEvent::Frame(bytes), now_ms);
                },
                Event::ReceiveTimedOut => {
                    self.on_resolver_event(ArpEvent::TimedOut, now_ms);
                },
                _ => {},
            },
            Stage::LookingUpVendors => match event {
                Event::Vendor(answer) => {
                    self.on_vendor(answer, now_ms);
                },
                _ => {},
            },
        }
        self.action()
    }

    /// What the caller is to do now.
    pub fn action(&self) -> (action: Action)
        requires
            self.wf(),
        ensures
            action@ == self@.pending(self.config()),
    {
        match self.stage {
            Stage::SelectingInterface => Action::SelectInterface {
                name: clone_optional(&self.config.interface_name),
            },
            Stage::EnumeratingCandidates => Action::Enumerate,
            Stage::ProbingLiveness => Action::Probe {
                candidates: self.candidates.to_vec(),
                timeout_ms: self.config.probe_timeout_ms,
            },
            Stage::ResolvingHardwareAddresses => match self.resolver {
                Some(r) => match r.action() {
                    ArpAction::Send(bytes) => Action::SendFrame(bytes),
                    ArpAction::Receive { timeout_ms } => Action::ReceiveFrame { timeout_ms },
                    ArpAction::Done(_) => Action::Finished,
                },
                None => Action::Finished,
            },
            Stage::LookingUpVendors => Action::LookupVendor {
                mac: self.bindings[self.cursor].mac_address,
            },
            Stage::Done => match self.failure {
                Some(e) => Action::Aborted(e),
                None => Action::Finished,
            },
        }
    }

    /// Where the run stands.
    pub fn stage(&self) -> (s: Stage)
        ensures
            s == self@.stage,
    {
        self.stage
    }

    /// Whether the run is over, with a report or given up.
    pub fn is_done(&self) -> (r: bool)
        ensures
            r == (self@.stage == Stage::Done),
    {
        self.stage == Stage::Done
    }

    /// Why the run was given up, if it was.
    pub fn failure(&self) -> (r: Option<DiscoveryError>)
        ensures
            r == self@.failure,
    {
        self.failure
    }

    /// The address of the interface chosen, once one is chosen.
    pub fn own_address(&self) -> (r: Option<Ipv4>)
        ensures
            r == match self@.interface {
                Some(i) => i.primary_ipv4(),
                None => None,
            },
    {
        match &self.interface {
            Some(i) => i.primary_ipv4(),
            None => None,
        }
    }

    /// The candidates that replied, in ascending order.
    pub fn live_hosts(&self) -> (r: Vec<Ipv4>)
        ensures
            r@ == self@.live,
    {
        self.live.to_vec()
    }

    /// The report as far as it is known: one record for each live host that
    /// has been dealt with, in ascending order of address. Once the run is
    /// done and was not given up, that is every live host.
    pub fn report(&self) -> (r: DiscoveryReport)
        requires
            self.wf(),
        ensures
            r@ == self@.records(),
            r.wf(),
            r@.len() <= self@.live.len(),
            forall|i: int| 0 <= i < r@.len() ==> (#[trigger] r@[i]).ip_address == self@.live[i],
            self@.stage == Stage::Done && self@.failure.is_none() ==> r@.len() == self@.live.len(),
    {
        let r = DiscoveryReport::assemble(&self.bindings, &self.vendors);
        proof {
            let s = self@;
            assert forall|i: int, j: int| 0 <= i < j < r@.len() implies r@[i].ip_address.bits
                < r@[j].ip_address.bits by {
                assert(s.bindings[i].ip_address == s.live[i]);
                assert(s.bindings[j].ip_address == s.live[j]);
            }
            assert forall|i: int| 0 <= i < r@.len() implies (#[trigger] r@[i]).wf() by {
                assert(s.bindings[i].wf());
            }
            assert forall|i: int| 0 <= i < r@.len() implies (#[trigger] r@[i]).ip_address
                == s.live[i] by {
                assert(s.bindings[i].ip_address == s.live[i]);
            }
        }
        r
    }
}

/// How long a liveness probe waits unless the caller says otherwise.
pub const DEFAULT_PROBE_TIMEOUT_MS: u64 = 1000;

/// How long one read of a frame waits unless the caller says otherwise.
pub const DEFAULT_ARP_TIMEOUT_MS: u64 = 1000;

/// Begins the scan of `hosts` on an interface that is already chosen: the
/// run stands at the liveness probes, with the hosts in ascending order as
/// its candidates, two frames read per host at most, and no deadline.
pub fn scan_hosts(interface: &NetworkInterface, hosts: Vec<Ipv4>) -> (r: Discovery)
    requires
        interface@.ipv4.len() > 0,
    ensures
        r.wf(),
        r@ == (DiscoveryState {
            stage: Stage::ProbingLiveness,
            interface: Some(interface@),
            candidates: ascending_members(hosts@.to_set()),
            ..DiscoveryState::initial()
        }),
        r.config() == (ConfigView {
            interface_name: None,
            source: SourceView::Addresses(hosts@),
            probe_timeout_ms: DEFAULT_PROBE_TIMEOUT_MS,
            arp_attempts: crate::arp::DEFAULT_ARP_ATTEMPTS,
            arp_timeout_ms: DEFAULT_ARP_TIMEOUT_MS,
            deadline_ms: None,
        }),
{
    let candidates = CandidateSet::from_addresses(&hosts);
    let r = Discovery {
        config: DiscoveryConfig {
            interface_name: None,
            source: CandidateSource::Addresses(hosts),
            probe_timeout_ms: DEFAULT_PROBE_TIMEOUT_MS,
            arp_attempts: crate::arp::DEFAULT_ARP_ATTEMPTS,
            arp_timeout_ms: DEFAULT_ARP_TIMEOUT_MS,
            deadline_ms: None,
        },
        stage: Stage::ProbingLiveness,
        failure: None,
        interface: Some(interface.clone()),
        candidates,
        live: CandidateSet::empty(),
        bindings: Vec::new(),
        vendors: Vec::new(),
        resolver: None,
        cursor: 0,
    };
    proof {
        assert(r.vendors.deep_view() =~= Seq::<Option<Seq<char>>>::empty());
    }
    r
}

} // verus!
