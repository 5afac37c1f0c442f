//! What the production server's reporter prints for each message of the
//! server, and the buffer that groups the nested events of a request until
//! the request completes: an LRU cache of at most 1024 requests, whose
//! groups are dropped a minute after they were opened.
use vstd::prelude::*;

use crate::config::UdfKind;
use crate::util::owned;

verus! {

/// How many requests the reporter keeps nested events for.
pub const MESSAGE_GROUP_CAPACITY: usize = 1024;

/// How long (in milliseconds) nested events are kept for a request that
/// does not complete.
pub const EVENT_MAX_DELAY_MS: u64 = 60_000;

/// The level of a message logged by a user-defined function.
#[derive(Debug, Clone, Copy, PartialEq, Eq, Structural)]
pub enum LogLevel {
    Error,
    Warn,
    Info,
    Debug,
}

/// Something that happened while serving a request.
#[derive(Debug)]
pub enum NestedEvent {
    /// A user-defined function logged a message.
    UdfMessage { udf_kind: UdfKind, udf_name: String, level: LogLevel, message: String },
    /// A user-defined function sent a request.
    NestedRequest {
        url: String,
        method: String,
        status_code: u16,
        duration_ms: u64,
        body: Option<String>,
        content_type: Option<String>,
    },
}

/// The nested events of a request, and when the first of them arrived.
#[derive(Debug)]
pub struct MessageGroup {
    pub created_at_ms: u64,
    pub events: Vec<NestedEvent>,
}

impl MessageGroup {
    /// A group opened at `now_ms`, with no event yet.
    pub fn new(now_ms: u64) -> (r: MessageGroup)
        ensures
            r.created_at_ms == now_ms,
            r.events@.len() == 0,
    {
        MessageGroup { created_at_ms: now_ms, events: Vec::new() }
    }
}

/// Mathematical model of a [`MessageGroup`].
pub struct GroupView {
    pub created_at_ms: u64,
    pub events: Seq<NestedEvent>,
}

impl View for MessageGroup {
    type V = GroupView;

    open spec fn view(&self) -> GroupView {
        GroupView { created_at_ms: self.created_at_ms, events: self.events@ }
    }
}

/// What a request-scoped message of the server says.
#[derive(Debug)]
pub enum LogEventType {
    /// The request completed.
    RequestCompleted { name: Option<String>, duration_ms: u64, request_completed_type: String },
    /// Something happened while serving it.
    NestedEvent(NestedEvent),
}

/// A message of the server.
#[derive(Debug)]
pub enum ServerMessage {
    Ready(u16),
    RequestScopedMessage { event_type: LogEventType, request_id: String },
    StartUdfBuild { udf_kind: UdfKind, udf_name: String },
    CompleteUdfBuild { udf_kind: UdfKind, udf_name: String, duration_ms: u64 },
    CompilationError(String),
    Reload(Vec<String>),
}

/// What the reporter prints.
#[derive(Debug)]
pub enum Report {
    StartProdServer { port: u16 },
    OperationLog {
        name: Option<String>,
        duration_ms: u64,
        request_completed_type: String,
        nested_events: Vec<NestedEvent>,
    },
    StartUdfBuild { udf_kind: UdfKind, udf_name: String },
    CompleteUdfBuild { udf_kind: UdfKind, udf_name: String, duration_ms: u64 },
    CompilationError(String),
}

#[verifier::external_type_specification]
#[verifier::external_body]
#[verifier::reject_recursive_types(K)]
#[verifier::reject_recursive_types(V)]
#[verifier::reject_recursive_types(S)]
pub struct ExLruCache<K, V, S>(lru::LruCache<K, V, S>);

#[verifier::external_type_specification]
#[verifier::external_body]
pub struct ExLruDefaultHasher(lru::DefaultHasher);

/// What an `lru::LruCache` of message groups holds: its entries from the
/// least to the most recently used, each request id with its group.
pub uninterp spec fn lru_entries(c: lru::LruCache<String, MessageGroup>) -> Seq<(Seq<char>, GroupView)>;

/// The capacity an `lru::LruCache` of message groups was made with.
pub uninterp spec fn lru_capacity(c: lru::LruCache<String, MessageGroup>) -> nat;

/// No request id occurs twice.
pub open spec fn distinct_keys(e: Seq<(Seq<char>, GroupView)>) -> bool {
    forall|i: int, j: int| 0 <= i < j < e.len() ==> e[i].0 != e[j].0
}

/// `i` is the position of the entry of `k`.
pub open spec fn key_at(e: Seq<(Seq<char>, GroupView)>, k: Seq<char>, i: int) -> bool {
    0 <= i < e.len() && e[i].0 == k
}

/// A cache as `lru` keeps one: each key once, no more entries than its
/// capacity.
pub open spec fn lru_sound(c: lru::LruCache<String, MessageGroup>) -> bool {
    distinct_keys(lru_entries(c)) && lru_entries(c).len() <= lru_capacity(c)
}

/// Calls `lru::LruCache::new` with the capacity (not zero): an empty cache.
#[verifier::external_body]
fn lru_new(cap: usize) -> (r: lru::LruCache<String, MessageGroup>)
    requires
        cap > 0,
    ensures
        lru_entries(r) == Seq::<(Seq<char>, GroupView)>::empty(),
        lru_capacity(r) == cap,
        lru_sound(r),
{
    lru::LruCache::new(std::num::NonZeroUsize::new(cap).unwrap())
}

/// Calls `lru::LruCache::pop`: the entry of `k` is removed and its group
/// given back, the others keep their order; without such an entry nothing
/// changes.
#[verifier::external_body]
fn lru_pop(c: &mut lru::LruCache<String, MessageGroup>, k: &str) -> (r: Option<MessageGroup>)
    ensures
        lru_capacity(*final(c)) == lru_capacity(*old(c)),
        lru_sound(*final(c)),
        if exists|i: int| key_at(lru_entries(*old(c)), k@, i) {
            let i = choose|i: int| key_at(lru_entries(*old(c)), k@, i);
            &&& r matches Some(g) && g@ == lru_entries(*old(c))[i].1
            &&& lru_entries(*final(c)) == lru_entries(*old(c)).remove(i)
        } else {
            &&& r is None
            &&& lru_entries(*final(c)) == lru_entries(*old(c))
        },
{
    c.pop(k)
}

/// Calls `lru::LruCache::put`: an entry of `k` gets the new group and
/// becomes the most recently used, its old group given back; else the entry
/// is added as the most recently used, after the least recently used entry
/// is dropped when the cache is full.
#[verifier::external_body]
fn lru_put(c: &mut lru::LruCache<String, MessageGroup>, k: String, v: MessageGroup) -> (r: Option<MessageGroup>)
    ensures
        lru_capacity(*final(c)) == lru_capacity(*old(c)),
        lru_sound(*final(c)),
        if exists|i: int| key_at(lru_entries(*old(c)), k@, i) {
            let i = choose|i: int| key_at(lru_entries(*old(c)), k@, i);
            &&& r matches Some(g) && g@ == lru_entries(*old(c))[i].1
            &&& lru_entries(*final(c)) == lru_entries(*old(c)).remove(i).push((k@, v@))
        } else if lru_entries(*old(c)).len() == lru_capacity(*old(c)) {
            &&& r is None
            &&& lru_entries(*final(c)) == lru_entries(*old(c)).drop_first().push((k@, v@))
        } else {
            &&& r is None
            &&& lru_entries(*final(c)) == lru_entries(*old(c)).push((k@, v@))
        },
{
    c.put(k, v)
}

/// Calls `lru::LruCache::peek_lru` and gives the time the least recently
/// used group was opened; nothing changes.
#[verifier::external_body]
fn lru_peek_lru_created(c: &lru::LruCache<String, MessageGroup>) -> (r: Option<u64>)
    ensures
        if lru_entries(*c).len() > 0 {
            r == Some(lru_entries(*c)[0].1.created_at_ms)
        } else {
            r is None
        },
{
    c.peek_lru().map(|(_, g)| g.created_at_ms)
}

/// Calls `lru::LruCache::pop_lru`: the least recently used entry is removed
/// and given back.
#[verifier::external_body]
fn lru_pop_lru(c: &mut lru::LruCache<String, MessageGroup>) -> (r: Option<(String, MessageGroup)>)
    ensures
        lru_capacity(*final(c)) == lru_capacity(*old(c)),
        lru_sound(*final(c)),
        if lru_entries(*old(c)).len() > 0 {
            &&& r matches Some((k, g)) && k@ == lru_entries(*old(c))[0].0 && g@ == lru_entries(*old(c))[0].1
            &&& lru_entries(*final(c)) == lru_entries(*old(c)).drop_first()
        } else {
            &&& r is None
            &&& lru_entries(*final(c)) == lru_entries(*old(c))
        },
{
    c.pop_lru()
}

/// The entries without that of `k`, if there is one.
pub open spec fn remove_key(e: Seq<(Seq<char>, GroupView)>, k: Seq<char>) -> Seq<(Seq<char>, GroupView)> {
    if exists|i: int| key_at(e, k, i) {
        e.remove(choose|i: int| key_at(e, k, i))
    } else {
        e
    }
}

/// The events grouped for `k`: none when it has no group.
pub open spec fn events_of(e: Seq<(Seq<char>, GroupView)>, k: Seq<char>) -> Seq<NestedEvent> {
    if exists|i: int| key_at(e, k, i) {
        e[choose|i: int| key_at(e, k, i)].1.events
    } else {
        Seq::empty()
    }
}

/// The entries after a nested event of `k` arrives at `now`: its group (or a
/// new one opened at `now`, dropping the least recently used group when
/// `cap` groups are kept) gets the event and becomes the most recently
/// used.
pub open spec fn add_event(e: Seq<(Seq<char>, GroupView)>, k: Seq<char>, ev: NestedEvent, now: u64, cap: nat) -> Seq<
    (Seq<char>, GroupView),
> {
    if exists|i: int| key_at(e, k, i) {
        let i = choose|i: int| key_at(e, k, i);
        e.remove(i).push((k, GroupView { created_at_ms: e[i].1.created_at_ms, events: e[i].1.events.push(ev) }))
    } else {
        let g = GroupView { created_at_ms: now, events: seq![ev] };
        if e.len() == cap {
            e.drop_first().push((k, g))
        } else {
            e.push((k, g))
        }
    }
}

/// A group opened at `created` has waited too long at `now`.
pub open spec fn stale(created: u64, now: u64) -> bool {
    now > created + EVENT_MAX_DELAY_MS
}

/// The entries after the stale groups are dropped, from the least recently
/// used on, up to the first that is not stale.
pub open spec fn expire(e: Seq<(Seq<char>, GroupView)>, now: u64) -> Seq<(Seq<char>, GroupView)>
    decreases e.len(),
{
    if e.len() > 0 && stale(e[0].1.created_at_ms, now) {
        expire(e.drop_first(), now)
    } else {
        e
    }
}

/// The entries after a message, before stale groups are dropped.
pub open spec fn after_message(e: Seq<(Seq<char>, GroupView)>, message: ServerMessage, now: u64, cap: nat) -> Seq<
    (Seq<char>, GroupView),
> {
    match message {
        ServerMessage::RequestScopedMessage { event_type, request_id } => match event_type {
            LogEventType::RequestCompleted { .. } => remove_key(e, request_id@),
            LogEventType::NestedEvent(ev) => add_event(e, request_id@, ev, now, cap),
        },
        _ => e,
    }
}

/// What is printed for a message, given the events grouped so far.
pub open spec fn report_for(e: Seq<(Seq<char>, GroupView)>, message: ServerMessage, r: Option<Report>) -> bool {
    match message {
        ServerMessage::Ready(port) => r == Some(Report::StartProdServer { port }),
        ServerMessage::RequestScopedMessage { event_type, request_id } => match event_type {
            LogEventType::RequestCompleted { name, duration_ms, request_completed_type } => r matches Some(
                Report::OperationLog { name: n, duration_ms: d, request_completed_type: t, nested_events },
            ) && n == name && d == duration_ms && t == request_completed_type && nested_events@ == events_of(
                e,
                request_id@,
            ),
            LogEventType::NestedEvent(_) => r is None,
        },
        ServerMessage::StartUdfBuild { udf_kind, udf_name } => r == Some(Report::StartUdfBuild { udf_kind, udf_name }),
        ServerMessage::CompleteUdfBuild { udf_kind, udf_name, duration_ms } => r == Some(
            Report::CompleteUdfBuild { udf_kind, udf_name, duration_ms },
        ),
        ServerMessage::CompilationError(error) => r == Some(Report::CompilationError(error)),
        ServerMessage::Reload(_) => r is None,
    }
}

/// The production server's reporter.
pub struct Reporter {
    buffer: lru::LruCache<String, MessageGroup>,
}

impl Reporter {
    /// The buffer is a sound cache of the reporter's capacity.
    pub closed spec fn wf(&self) -> bool {
        lru_sound(self.buffer) && lru_capacity(self.buffer) == MESSAGE_GROUP_CAPACITY
    }

    /// The groups kept, from the least to the most recently used.
    pub closed spec fn groups(&self) -> Seq<(Seq<char>, GroupView)> {
        lru_entries(self.buffer)
    }

    /// A reporter with no group.
    pub fn new() -> (r: Reporter)
        ensures
            r.wf(),
            r.groups().len() == 0,
    {
        Reporter { buffer: lru_new(MESSAGE_GROUP_CAPACITY) }
    }

    /// The groups kept hold each request once, and at most 1024 of them.
    pub proof fn lemma_groups_bounded(&self)
        requires
            self.wf(),
        ensures
            distinct_keys(self.groups()),
            self.groups().len() <= MESSAGE_GROUP_CAPACITY,
    {
    }

    /// Handle a message of the server received at `now_ms`: what to print,
    /// if anything (a completed request is printed with the nested events
    /// grouped for it, and its group is dropped; a nested event is added to
    /// its request's group); then the groups that have waited more than a
    /// minute are dropped, from the least recently used on.
    pub fn handle(&mut self, message: ServerMessage, now_ms: u64) -> (r: Option<Report>)
        requires
            old(self).wf(),
        ensures
            final(self).wf(),
            report_for(old(self).groups(), message, r),
            final(self).groups() == expire(
                after_message(old(self).groups(), message, now_ms, MESSAGE_GROUP_CAPACITY as nat),
                now_ms,
            ),
    {
        let ghost e0 = self.groups();
        let r = match message {
            ServerMessage::Ready(port) => Some(Report::StartProdServer { port }),
            ServerMessage::RequestScopedMessage { event_type, request_id } => match event_type {
                LogEventType::RequestCompleted { name, duration_ms, request_completed_type } => {
                    let nested_events = match lru_pop(&mut self.buffer, request_id.as_str()) {
                        Some(group) => group.events,
                        None => Vec::new(),
                    };
                    assert(self.groups() == remove_key(e0, request_id@));
                    assert(nested_events@ == events_of(e0, request_id@));
                    Some(Report::OperationLog { name, duration_ms, request_completed_type, nested_events })
                },
                LogEventType::NestedEvent(nested_event) => {
                    let ghost ev = nested_event;
                    let ghost k = request_id@;
                    let group = match lru_pop(&mut self.buffer, request_id.as_str()) {
                        Some(group) => {
                            let mut group = group;
                            group.events.push(nested_event);
                            group
                        },
                        None => {
                            let mut group = MessageGroup::new(now_ms);
                            group.events.push(nested_event);
                            group
                        },
                    };
                    let ghost mid0 = self.groups();
                    let ghost g = group@;
                    proof {
                        if exists|i: int| key_at(e0, k, i) {
                            let i = choose|i: int| key_at(e0, k, i);
                            assert(mid0 == e0.remove(i));
                            assert(g.events =~= e0[i].1.events.push(ev));
                            assert forall|j: int| !key_at(mid0, k, j) by {
                                if key_at(mid0, k, j) {
                                    if j < i {
                                        assert(e0[j].0 == mid0[j].0);
                                    } else {
                                        assert(e0[j + 1].0 == mid0[j].0);
                                    }
                                }
                            }
                        } else {
                            assert(mid0 == e0);
                            assert(g.events =~= seq![ev]);
                        }
                    }
                    let _ = lru_put(&mut self.buffer, request_id, group);
                    proof {
                        if exists|i: int| key_at(e0, k, i) {
                            let i = choose|i: int| key_at(e0, k, i);
                            assert(!exists|j: int| key_at(mid0, k, j));
                            assert(mid0.len() < MESSAGE_GROUP_CAPACITY);
                            assert(self.groups() == mid0.push((k, g)));
                            assert(self.groups() =~= add_event(e0, k, ev, now_ms, MESSAGE_GROUP_CAPACITY as nat));
                        } else {
                            assert(self.groups() =~= add_event(e0, k, ev, now_ms, MESSAGE_GROUP_CAPACITY as nat));
                        }
                    }
                    None
                },
            },
            ServerMessage::StartUdfBuild { udf_kind, udf_name } => Some(Report::StartUdfBuild { udf_kind, udf_name }),
            ServerMessage::CompleteUdfBuild { udf_kind, udf_name, duration_ms } => Some(
                Report::CompleteUdfBuild { udf_kind, udf_name, duration_ms },
            ),
            ServerMessage::CompilationError(error) => Some(Report::CompilationError(error)),
            ServerMessage::Reload(_) => None,
        };
        let ghost mid = self.groups();
        assert(mid == after_message(e0, message, now_ms, MESSAGE_GROUP_CAPACITY as nat));
        loop
            invariant
                lru_sound(self.buffer),
                lru_capacity(self.buffer) == MESSAGE_GROUP_CAPACITY,
                expire(mid, now_ms) == expire(self.groups(), now_ms),
            ensures
                self.groups() == expire(mid, now_ms),
            decreases self.groups().len(),
        {
            let oldest = lru_peek_lru_created(&self.buffer);
            let drop_oldest = match oldest {
                Some(created) => now_ms > created && now_ms - created > EVENT_MAX_DELAY_MS,
                None => false,
            };
            if !drop_oldest {
                break;
            }
            let _ = lru_pop_lru(&mut self.buffer);
        }
        r
    }
}

/// After stale groups are dropped, the least recently used group kept (if
/// any) is not stale, and the groups kept are the most recently used ones,
/// in their order.
pub proof fn lemma_expire_keeps_fresh(e: Seq<(Seq<char>, GroupView)>, now: u64)
    ensures
        expire(e, now).len() > 0 ==> !stale(expire(e, now)[0].1.created_at_ms, now),
        expire(e, now).is_suffix_of(e),
    decreases e.len(),
{
    if e.len() > 0 && stale(e[0].1.created_at_ms, now) {
        lemma_expire_keeps_fresh(e.drop_first(), now);
        let x = expire(e.drop_first(), now);
        assert forall|i: int| 0 <= i < x.len() implies x[i] == e[e.len() - x.len() + i] by {
            assert(x[i] == e.drop_first()[e.drop_first().len() - x.len() + i]);
        }
    } else {
        assert(e.is_suffix_of(e)) by {
            assert(e.subrange(0, e.len() as int) =~= e);
        }
    }
}

proof fn lemma_events_of_last(e: Seq<(Seq<char>, GroupView)>, k: Seq<char>, g: GroupView)
    requires
        distinct_keys(e.push((k, g))),
    ensures
        events_of(e.push((k, g)), k) == g.events,
{
    let x = e.push((k, g));
    assert(key_at(x, k, e.len() as int));
    let i = choose|i: int| key_at(x, k, i);
    if i != e.len() {
        assert(x[i].0 == x[e.len() as int].0);
    }
}

/// A nested event is added at the end of its request's events (a request
/// without a group gets a group holding just that event), and each request
/// keeps one group.
pub proof fn lemma_add_event_appends(
    e: Seq<(Seq<char>, GroupView)>,
    k: Seq<char>,
    ev: NestedEvent,
    now: u64,
    cap: nat,
)
    requires
        distinct_keys(e),
        e.len() <= cap,
        cap > 0,
    ensures
        distinct_keys(add_event(e, k, ev, now, cap)),
        events_of(add_event(e, k, ev, now, cap), k) == events_of(e, k).push(ev),
{
    if exists|i: int| key_at(e, k, i) {
        let i = choose|i: int| key_at(e, k, i);
        let mid = e.remove(i);
        assert forall|a: int, b: int| 0 <= a < b < mid.len() implies mid[a].0 != mid[b].0 by {
            let a2 = if a < i { a } else { a + 1 };
            let b2 = if b < i { b } else { b + 1 };
            assert(mid[a] == e[a2] && mid[b] == e[b2]);
        }
        assert forall|j: int| 0 <= j < mid.len() implies mid[j].0 != k by {
            let j2 = if j < i { j } else { j + 1 };
            assert(mid[j] == e[j2]);
        }
        let g = GroupView { created_at_ms: e[i].1.created_at_ms, events: e[i].1.events.push(ev) };
        let x = mid.push((k, g));
        assert forall|a: int, b: int| 0 <= a < b < x.len() implies x[a].0 != x[b].0 by {
            if b == mid.len() {
                assert(x[a] == mid[a]);
            } else {
                assert(x[a] == mid[a] && x[b] == mid[b]);
            }
        }
        lemma_events_of_last(mid, k, g);
    } else {
        let g = GroupView { created_at_ms: now, events: seq![ev] };
        let base = if e.len() == cap {
            e.drop_first()
        } else {
            e
        };
        assert forall|j: int| 0 <= j < base.len() implies base[j].0 != k by {
            if e.len() == cap {
                assert(base[j] == e[j + 1]);
                assert(!key_at(e, k, j + 1));
            } else {
                assert(!key_at(e, k, j));
            }
        }
        assert forall|a: int, b: int| 0 <= a < b < base.len() implies base[a].0 != base[b].0 by {
            if e.len() == cap {
                assert(base[a] == e[a + 1] && base[b] == e[b + 1]);
            }
        }
        let x = base.push((k, g));
        assert forall|a: int, b: int| 0 <= a < b < x.len() implies x[a].0 != x[b].0 by {
            if b == base.len() {
                assert(x[a] == base[a]);
            } else {
                assert(x[a] == base[a] && x[b] == base[b]);
            }
        }
        lemma_events_of_last(base, k, g);
        assert(events_of(e, k) == Seq::<NestedEvent>::empty());
        assert(seq![ev] =~= Seq::<NestedEvent>::empty().push(ev));
    }
}

/// Why serving ended with an error.
#[derive(Debug)]
pub enum StartError<E> {
    /// The server's thread panicked, with this message.
    ServerPanic(String),
    /// The server stopped with this error.
    ServerError(E),
}

/// What serving ends with, given how the server's thread ended: `Ok` when
/// it returned `Ok`; its error as `ServerError`; a panic as `ServerPanic`
/// with the panic's message, or `"unknown error"` when the panic carried no
/// text.
pub fn server_outcome<E>(joined: Result<Result<(), E>, Option<String>>) -> (r: Result<(), StartError<E>>)
    ensures
        match joined {
            Ok(Ok(())) => r is Ok,
            Ok(Err(e)) => r == Err::<(), StartError<E>>(StartError::ServerError(e)),
            Err(Some(m)) => r matches Err(StartError::ServerPanic(x)) && x@ == m@,
            Err(None) => r matches Err(StartError::ServerPanic(x)) && x@ == "unknown error"@,
        },
{
    match joined {
        Ok(Ok(())) => Ok(()),
        Ok(Err(e)) => Err(StartError::ServerError(e)),
        Err(Some(m)) => Err(StartError::ServerPanic(m)),
        Err(None) => {
            let m = owned("unknown error");
            Err(StartError::ServerPanic(m))
        },
    }
}

} // verus!
