//! The protocol for opening a group of hardware performance counters
//! through the `perf_event_open` syscall — one that child processes
//! inherit and whose every descriptor is released on every path.
//!
//! The syscall itself is unsafe and stays with the caller; this module
//! holds every decision around it. [`GroupOpener`] is a step machine: it
//! rejects an empty request before any syscall could be issued, decides
//! the exact request for each member (the first member leads the group
//! and alone carries the group-wide settings), records each returned
//! descriptor, and on failure or release hands back exactly the
//! descriptors to close, each once.

use vstd::prelude::*;

use crate::system_stats::PipaCollectorError;

verus! {

/// A specific hardware performance event that can be monitored.
#[derive(Debug, Clone, Copy, PartialEq, Eq, Structural)]
pub enum PerfEvent {
    /// Counts the number of CPU cycles.
    Cycles,
    /// Counts the number of instructions executed.
    Instructions,
}

/// The kernel encoding of an event: the `(type, config)` pair of its
/// attribute record. Both supported events are of the generic hardware
/// type (0); cycles are counter code 0 and instructions counter code 1.
pub open spec fn event_code(e: PerfEvent) -> (u32, u64) {
    match e {
        PerfEvent::Cycles => (0u32, 0u64),
        PerfEvent::Instructions => (0u32, 1u64),
    }
}

/// Relies on `perf_event_open_sys::bindings::PERF_TYPE_HARDWARE`: the
/// generic hardware event type, defined as 0.
#[verifier::external_body]
fn hw_event_type() -> (r: u32)
    ensures
        r == 0,
{
    perf_event_open_sys::bindings::PERF_TYPE_HARDWARE
}

/// Relies on `perf_event_open_sys::bindings::PERF_COUNT_HW_CPU_CYCLES`: the
/// hardware cycle counter, defined as 0.
#[verifier::external_body]
fn hw_count_cycles() -> (r: u64)
    ensures
        r == 0,
{
    perf_event_open_sys::bindings::PERF_COUNT_HW_CPU_CYCLES as u64
}

/// Relies on `perf_event_open_sys::bindings::PERF_COUNT_HW_INSTRUCTIONS`:
/// the retired-instruction counter, defined as 1.
#[verifier::external_body]
fn hw_count_instructions() -> (r: u64)
    ensures
        r == 1,
{
    perf_event_open_sys::bindings::PERF_COUNT_HW_INSTRUCTIONS as u64
}

/// Relies on `perf_event_open_sys::bindings::PERF_FORMAT_GROUP`: the
/// read-format bit for reading all group members at once, defined as 8.
#[verifier::external_body]
fn fmt_group() -> (r: u64)
    ensures
        r == 8,
{
    perf_event_open_sys::bindings::PERF_FORMAT_GROUP as u64
}

/// Relies on `perf_event_open_sys::bindings::PERF_FORMAT_ID`: the
/// read-format bit for per-member identifiers, defined as 4.
#[verifier::external_body]
fn fmt_id() -> (r: u64)
    ensures
        r == 4,
{
    perf_event_open_sys::bindings::PERF_FORMAT_ID as u64
}

impl PerfEvent {
    /// The raw `type` and `config` values this event selects in a kernel
    /// attribute record.
    pub fn to_config(self) -> (r: (u32, u64))
        ensures
            r == event_code(self),
    {
        match self {
            PerfEvent::Cycles => (hw_event_type(), hw_count_cycles()),
            PerfEvent::Instructions => (hw_event_type(), hw_count_instructions()),
        }
    }
}

/// The fields of a kernel attribute record that this module sets; every
/// other field of the real record stays zero.
#[derive(Debug, Clone, Copy, PartialEq, Eq, Structural)]
pub struct EventAttr {
    /// The kernel event type.
    pub event_type: u32,
    /// The counter selected within the type.
    pub config: u64,
    /// Start the counter disabled; it auto-enables on the next exec.
    pub disabled: bool,
    /// Propagate the counter to child processes.
    pub inherit: bool,
    /// The raw read-format bits (group + id for the leader, none else).
    pub read_format: u64,
}

/// The attribute record for one event: the leader alone starts disabled,
/// inherits to children and reads the whole group with identifiers
/// (read-format bits 8 + 4 = 12); followers carry none of those settings.
pub open spec fn attr_spec(e: PerfEvent, leader: bool) -> EventAttr {
    EventAttr {
        event_type: event_code(e).0,
        config: event_code(e).1,
        disabled: leader,
        inherit: leader,
        read_format: if leader {
            12u64
        } else {
            0u64
        },
    }
}

/// Builds the attribute record for one event of a group.
pub fn build_attr(e: PerfEvent, leader: bool) -> (a: EventAttr)
    ensures
        a == attr_spec(e, leader),
{
    let (event_type, config) = e.to_config();
    let read_format: u64 = if leader {
        fmt_group() | fmt_id()
    } else {
        0
    };
    proof {
        assert((8u64 | 4u64) == 12u64) by (bit_vector);
    }
    EventAttr { event_type, config, disabled: leader, inherit: leader, read_format }
}

/// Law: only the leader's attribute record carries the disabled, inherit
/// and group+id read-format settings; a follower's record carries none of
/// them, whatever its event.
pub proof fn lemma_only_leader_carries_flags(e: PerfEvent)
    ensures
        attr_spec(e, true).disabled,
        attr_spec(e, true).inherit,
        attr_spec(e, true).read_format == 12,
        !attr_spec(e, false).disabled,
        !attr_spec(e, false).inherit,
        attr_spec(e, false).read_format == 0,
{
}

/// One fully decided `perf_event_open` request: the attribute record and
/// the four raw syscall arguments beside it.
#[derive(Debug, Clone, Copy, PartialEq, Eq, Structural)]
pub struct OpenRequest {
    /// The attribute record to hand to the kernel.
    pub attr: EventAttr,
    /// The monitored process: 0, the calling process (and, through
    /// inheritance, the children it creates afterwards).
    pub pid: i32,
    /// The monitored CPU: -1, any CPU.
    pub cpu: i32,
    /// The group to join: the leader's descriptor, or -1 to lead a new
    /// group.
    pub group_fd: i32,
    /// Extra syscall flags: always 0.
    pub flags: u64,
}

/// The open request for member `i` of a group: the member's event in its
/// attribute record — with the leader configuration exactly when `i` is 0
/// — monitoring the calling process (pid 0) on any CPU (-1), joining the
/// leader's descriptor (or -1 to lead, for the first member), no flags.
pub open spec fn spec_request(events: Seq<PerfEvent>, fds: Seq<i32>, i: int) -> OpenRequest {
    OpenRequest {
        attr: attr_spec(events[i], i == 0),
        pid: 0,
        cpu: -1i32,
        group_fd: if i == 0 {
            -1i32
        } else {
            fds[0]
        },
        flags: 0,
    }
}

/// The group-open protocol, one decision at a time: which request to issue
/// for the next member, and which descriptors were collected so far. The
/// first member leads the group; every later member joins the leader's
/// descriptor.
pub struct GroupOpener {
    events: Vec<PerfEvent>,
    fds: Vec<i32>,
}

impl GroupOpener {
    /// The requested events, in order.
    pub closed spec fn events_view(&self) -> Seq<PerfEvent> {
        self.events@
    }

    /// The descriptors collected so far, in member order.
    pub closed spec fn fds_view(&self) -> Seq<i32> {
        self.fds@
    }

    /// Well-formed: a non-empty event list, no more descriptors than
    /// events, and only valid (non-negative) descriptors recorded.
    pub open spec fn wf(&self) -> bool {
        &&& self.events_view().len() > 0
        &&& self.fds_view().len() <= self.events_view().len()
        &&& forall|i: int| 0 <= i < self.fds_view().len() ==> self.fds_view()[i] >= 0
    }

    /// Every member has a descriptor.
    pub open spec fn complete(&self) -> bool {
        self.fds_view().len() == self.events_view().len()
    }

    /// Starts the protocol for an ordered list of events. An empty list is
    /// rejected at once — before any syscall could be issued, since no
    /// opener exists to issue one.
    pub fn new(events: &[PerfEvent]) -> (r: Result<GroupOpener, PipaCollectorError>)
        ensures
            match r {
                Ok(o) => events@.len() > 0 && o.events_view() == events@ && o.fds_view()
                    == Seq::<i32>::empty() && o.wf(),
                Err(PipaCollectorError::InvalidFormat(m)) => events@.len() == 0 && m@
                    == "Cannot create an event group with no events."@,
                Err(_) => false,
            },
    {
        if events.len() == 0 {
            return Err(
                PipaCollectorError::InvalidFormat(
                    "Cannot create an event group with no events.".to_owned(),
                ),
            );
        }
        let evs = vstd::slice::slice_to_vec(events);
        Ok(GroupOpener { events: evs, fds: Vec::new() })
    }

    /// How many events the group will hold.
    pub fn event_count(&self) -> (n: usize)
        ensures
            n == self.events_view().len(),
    {
        self.events.len()
    }

    /// How many members have been opened so far.
    pub fn opened_count(&self) -> (n: usize)
        ensures
            n == self.fds_view().len(),
    {
        self.fds.len()
    }

    /// The request for the next member: its event's attribute record —
    /// leader configuration exactly for the first member — monitoring the
    /// calling process on any CPU, joining the leader's descriptor (or
    /// leading, for the first member), with no flags.
    pub fn next_request(&self) -> (r: OpenRequest)
        requires
            self.wf(),
            !self.complete(),
        ensures
            r == spec_request(
                self.events_view(),
                self.fds_view(),
                self.fds_view().len() as int,
            ),
    {
        let idx = self.fds.len();
        let leader = idx == 0;
        let attr = build_attr(self.events[idx], leader);
        let group_fd: i32 = if leader {
            -1
        } else {
            self.fds[0]
        };
        OpenRequest { attr, pid: 0, cpu: -1, group_fd, flags: 0 }
    }

    /// Records the descriptor the kernel returned for the member whose
    /// request was just issued.
    pub fn push_fd(&mut self, fd: i32)
        requires
            old(self).wf(),
            !old(self).complete(),
            fd >= 0,
        ensures
            final(self).events_view() == old(self).events_view(),
            final(self).fds_view() == old(self).fds_view().push(fd),
            final(self).wf(),
    {
        self.fds.push(fd);
    }

    /// Abandons the protocol after a failed open and hands back exactly
    /// the descriptors collected for the earlier members, each once, in
    /// member order, so that every one of them — and no other — is closed.
    pub fn cancel(self) -> (fds: Vec<i32>)
        ensures
            fds@ == self.fds_view(),
    {
        self.fds
    }

    /// Finishes the protocol: the completed group, owning one descriptor
    /// per event, the leader's first.
    pub fn into_group(self) -> (g: EventGroup)
        requires
            self.wf(),
            self.complete(),
        ensures
            g.fds_view() == self.fds_view(),
            g.fds_view().len() == self.events_view().len(),
            g.wf(),
    {
        EventGroup { fds: self.fds }
    }
}

/// The record of a complete group of performance counters: the
/// descriptors returned by `perf_event_open`, the leader's first. The
/// caller that issues the syscalls owns the descriptors; [`release`]
/// hands each of them back exactly once for closing.
///
/// [`release`]: EventGroup::release
#[derive(Debug)]
pub struct EventGroup {
    fds: Vec<i32>,
}

impl EventGroup {
    /// The descriptors the group holds, the leader's first.
    pub closed spec fn fds_view(&self) -> Seq<i32> {
        self.fds@
    }

    /// Well-formed: at least one member, every descriptor valid.
    pub open spec fn wf(&self) -> bool {
        &&& self.fds_view().len() > 0
        &&& forall|i: int| 0 <= i < self.fds_view().len() ==> self.fds_view()[i] >= 0
    }

    /// The file descriptor of the group leader, the primary descriptor
    /// for group-wide operations.
    pub fn leader_fd(&self) -> (fd: i32)
        requires
            self.fds_view().len() > 0,
        ensures
            fd == self.fds_view()[0],
    {
        self.fds[0]
    }

    /// How many counters the group holds.
    pub fn member_count(&self) -> (n: usize)
        ensures
            n == self.fds_view().len(),
    {
        self.fds.len()
    }

    /// Law: releasing the group hands back every descriptor it held,
    /// each exactly once, in any single call, and leaves the group empty
    /// — so a second release hands back nothing, and no descriptor can be
    /// closed twice or leak.
    pub fn release(&mut self) -> (closed: Vec<i32>)
        ensures
            closed@ == old(self).fds_view(),
            final(self).fds_view() == Seq::<i32>::empty(),
    {
        let mut fds: Vec<i32> = Vec::new();
        core::mem::swap(&mut fds, &mut self.fds);
        fds
    }
}

/// Relies on `std::io::Error::last_os_error` and `raw_os_error`: reads the
/// OS error code (`errno`) left by the last failed syscall. The code
/// depends on that call, so nothing is promised of the value.
#[verifier::external_body]
fn last_os_errno() -> (r: i32) {
    std::io::Error::last_os_error().raw_os_error().unwrap_or(0)
}

/// Creates a group of performance counters that child processes inherit,
/// issuing each open through `open` and each close through `close`. The
/// group is created disabled; the kernel enables it when the monitored
/// process next loads a program image.
///
/// An empty event list fails with the invalid-configuration error before
/// `open` is ever called. Otherwise one request per event is issued in
/// order — the first member leads — and on success the group holds one
/// descriptor per event, each the response to exactly the request this
/// module prescribes for its member. A negative response aborts the
/// operation with the OS error code; the error can only arise that way —
/// from a failed prescribed open for some member — and by then every
/// earlier member's descriptor has been handed to `close`.
#[verifier::loop_isolation(false)]
pub fn create_event_group_with<F: Fn(OpenRequest) -> i32, G: Fn(i32)>(
    events: &[PerfEvent],
    open: F,
    close: G,
) -> (r: Result<EventGroup, PipaCollectorError>)
    requires
        forall|req: OpenRequest| #[trigger] call_requires(open, (req,)),
        forall|fd: i32| #[trigger] call_requires(close, (fd,)),
    ensures
        match r {
            Ok(g) => {
                &&& events@.len() > 0
                &&& g.wf()
                &&& g.fds_view().len() == events@.len()
                &&& forall|i: int|
                    0 <= i < events@.len() ==> call_ensures(
                        open,
                        (spec_request(events@, g.fds_view(), i),),
                        #[trigger] g.fds_view()[i],
                    )
            },
            Err(PipaCollectorError::InvalidFormat(m)) => events@.len() == 0 && m@
                == "Cannot create an event group with no events."@,
            Err(PipaCollectorError::Io(_)) => {
                &&& events@.len() > 0
                &&& exists|pfds: Seq<i32>, bad: i32|
                    #![trigger call_ensures(open, (spec_request(events@, pfds, pfds.len() as int),), bad)]
                    {
                        &&& pfds.len() < events@.len()
                        &&& bad < 0
                        &&& forall|j: int|
                            0 <= j < pfds.len() ==> (#[trigger] pfds[j]) >= 0 && call_ensures(
                                open,
                                (spec_request(events@, pfds, j),),
                                pfds[j],
                            ) && call_ensures(close, (pfds[j],), ())
                        &&& call_ensures(
                            open,
                            (spec_request(events@, pfds, pfds.len() as int),),
                            bad,
                        )
                    }
            },
            Err(_) => false,
        },
{
    let mut opener = match GroupOpener::new(events) {
        Ok(o) => o,
        Err(e) => {
            return Err(e);
        },
    };
    let total = opener.event_count();
    let mut i = opener.opened_count();
    while i < total
        invariant
            forall|req: OpenRequest| #[trigger] call_requires(open, (req,)),
            forall|fd: i32| #[trigger] call_requires(close, (fd,)),
            opener.wf(),
            opener.events_view() == events@,
            events@.len() > 0,
            total == opener.events_view().len(),
            i == opener.fds_view().len(),
            i <= total,
            forall|j: int|
                0 <= j < i ==> call_ensures(
                    open,
                    (spec_request(events@, opener.fds_view(), j),),
                    #[trigger] opener.fds_view()[j],
                ),
        decreases total - i,
    {
        let req = opener.next_request();
        let fd = open(req);
        if fd < 0 {
            let errno = last_os_errno();
            let fds = opener.cancel();
            let mut k: usize = 0;
            while k < fds.len()
                invariant
                    k <= fds@.len(),
                    forall|j: int| 0 <= j < k ==> call_ensures(close, ((#[trigger] fds@[j]),), ()),
                decreases fds@.len() - k,
            {
                close(fds[k]);
                k = k + 1;
            }
            proof {
                assert(call_ensures(open, (spec_request(events@, fds@, fds@.len() as int),), fd));
            }
            return Err(PipaCollectorError::Io(errno));
        }
        opener.push_fd(fd);
        i = i + 1;
    }
    Ok(opener.into_group())
}

} // verus!
