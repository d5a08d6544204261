use vstd::prelude::*;

use crate::connection::{status_connected, status_report, status_text, ConnectionStatus};
use crate::error::Error;
use crate::jsonrpc::{Methods, Results};

verus! {

/// What the caller hands back after opening a link for a `connect` request:
/// the connection it made, the status the connection reported, and the ports
/// of its two relay sockets.
pub struct OpenedLink<C> {
    pub connection: C,
    pub status: ConnectionStatus,
    pub pull_port: u16,
    pub push_port: u16,
}

/// What the server asks of its caller next.
pub enum Step<C> {
    /// The request is done; this is its outcome.
    Reply(Result<Results, Error>),
    /// Scan for Crazyflies on the given address, then report `Scanned`.
    Scan { address: [u8; 5] },
    /// Scan the given links, then report `Scanned`.
    ScanSelected { uris: Vec<String> },
    /// Read the status of the connection held for `uri`, then report `StatusRead`.
    ReadStatus { uri: String },
    /// Open a link to `uri` and start its relay, then report `Opened`.
    Open { uri: String },
    /// Stop this connection, which the table no longer holds, then report `Closed`.
    Close { connection: C },
}

/// What the caller reports after doing what a step asked.
pub enum Event<C> {
    Scanned(Result<Vec<String>, Error>),
    StatusRead(ConnectionStatus),
    Opened(Result<OpenedLink<C>, Error>),
    Closed,
}

/// The request under way, and what it waits for.
#[derive(Debug, Clone, PartialEq, Eq)]
pub enum Pending {
    Idle,
    Scan,
    ScanSelected,
    /// A `connect` for `uri` waits for the status of the connection it would replace.
    ConnectCheck { uri: String },
    /// A `connect` for `uri` waits for its new link.
    Connect { uri: String },
    Status,
    Close,
}

/// Message of a request that names a link the server holds no connection for.
pub open spec fn not_found_message(uri: Seq<char>) -> Seq<char> {
    "Connection does not exist for uri "@ + uri
}

/// Message of a `connect` refused because the link is still connected.
pub open spec fn already_active_message() -> Seq<char> {
    "Connection already active!"@
}

/// Whether the event is the one the pending request waits for.
pub open spec fn accepts<C>(pending: Pending, event: Event<C>) -> bool {
    match pending {
        Pending::Idle => false,
        Pending::Scan => event is Scanned,
        Pending::ScanSelected => event is Scanned,
        Pending::ConnectCheck { .. } => event is StatusRead,
        Pending::Connect { .. } => event is Opened,
        Pending::Status => event is StatusRead,
        Pending::Close => event is Closed,
    }
}

/// What a request waits for once it has started, given the table.
pub open spec fn begin_pending<C>(table: Map<Seq<char>, C>, method: Methods) -> Pending {
    match method {
        Methods::GetVersion => Pending::Idle,
        Methods::Scan { .. } => Pending::Scan,
        Methods::ScanSelected { .. } => Pending::ScanSelected,
        Methods::Connect { uri } => if table.contains_key(uri@) {
            Pending::ConnectCheck { uri }
        } else {
            Pending::Connect { uri }
        },
        Methods::GetConnectionStatus { uri } => if table.contains_key(uri@) {
            Pending::Status
        } else {
            Pending::Idle
        },
        Methods::Disconnect { uri } => if table.contains_key(uri@) {
            Pending::Close
        } else {
            Pending::Idle
        },
    }
}

/// The table once a request has started: a `disconnect` takes its link out.
pub open spec fn begin_table<C>(table: Map<Seq<char>, C>, method: Methods) -> Map<Seq<char>, C> {
    match method {
        Methods::Disconnect { uri } => table.remove(uri@),
        _ => table,
    }
}

/// What the request waits for after an event.
pub open spec fn resume_pending<C>(pending: Pending, event: Event<C>) -> Pending {
    match pending {
        Pending::ConnectCheck { uri } => if event matches Event::StatusRead(status) && !status_connected(status) {
            Pending::Connect { uri }
        } else {
            Pending::Idle
        },
        _ => Pending::Idle,
    }
}

/// The table after an event: a `connect` drops the disconnected link it
/// replaces, and stores the new connection once the link is open.
pub open spec fn resume_table<C>(table: Map<Seq<char>, C>, pending: Pending, event: Event<C>) -> Map<Seq<char>, C> {
    match pending {
        Pending::ConnectCheck { uri } => if event matches Event::StatusRead(status) && !status_connected(status) {
            table.remove(uri@)
        } else {
            table
        },
        Pending::Connect { uri } => match event {
            Event::Opened(Ok(opened)) => table.insert(uri@, opened.connection),
            _ => table,
        },
        _ => table,
    }
}

/// The outcome of a `scan` once the radio has answered.
pub open spec fn scan_outcome(scanned: Result<Vec<String>, Error>) -> Result<Results, Error> {
    match scanned {
        Ok(found) => Ok(Results::Scan { found }),
        Err(error) => Err(error),
    }
}

/// The outcome of a `scanSelected` once the radio has answered.
pub open spec fn scan_selected_outcome(scanned: Result<Vec<String>, Error>) -> Result<Results, Error> {
    match scanned {
        Ok(found) => Ok(Results::ScanSelected { found }),
        Err(error) => Err(error),
    }
}

/// The link a request is about, if it names one.
pub open spec fn method_uri(method: Methods) -> Option<Seq<char>> {
    match method {
        Methods::Connect { uri } => Some(uri@),
        Methods::GetConnectionStatus { uri } => Some(uri@),
        Methods::Disconnect { uri } => Some(uri@),
        _ => None,
    }
}

/// The link a pending request is about, if it changes the table.
pub open spec fn pending_uri(pending: Pending) -> Option<Seq<char>> {
    match pending {
        Pending::ConnectCheck { uri } => Some(uri@),
        Pending::Connect { uri } => Some(uri@),
        _ => None,
    }
}

/// Whether no two entries are held for the same link.
pub open spec fn keys_unique<C>(entries: Seq<(String, C)>) -> bool {
    forall|i: int, j: int|
        0 <= i < entries.len() && 0 <= j < entries.len() && i != j
            ==> #[trigger] entries[i].0@ != #[trigger] entries[j].0@
}

/// Whether some entry is held for the link.
pub open spec fn holds_key<C>(entries: Seq<(String, C)>, key: Seq<char>) -> bool {
    exists|i: int| 0 <= i < entries.len() && #[trigger] entries[i].0@ == key
}

/// The entries as a map from link to connection.
pub open spec fn entries_table<C>(entries: Seq<(String, C)>) -> Map<Seq<char>, C> {
    Map::new(
        |key: Seq<char>| holds_key(entries, key),
        |key: Seq<char>| entries[choose|i: int| 0 <= i < entries.len() && #[trigger] entries[i].0@ == key].1,
    )
}

proof fn lemma_table_lookup<C>(entries: Seq<(String, C)>, i: int)
    requires
        keys_unique(entries),
        0 <= i < entries.len(),
    ensures
        entries_table(entries).contains_key(entries[i].0@),
        entries_table(entries)[entries[i].0@] == entries[i].1,
{
    let key = entries[i].0@;
    assert(holds_key(entries, key));
    let j = choose|j: int| 0 <= j < entries.len() && #[trigger] entries[j].0@ == key;
    assert(entries[j].0@ == key);
    if j != i {
        assert(entries[i].0@ != entries[j].0@);
    }
}

proof fn lemma_table_remove<C>(entries: Seq<(String, C)>, i: int)
    requires
        keys_unique(entries),
        0 <= i < entries.len(),
    ensures
        keys_unique(entries.remove(i)),
        entries_table(entries.remove(i)) == entries_table(entries).remove(entries[i].0@),
{
    let rest = entries.remove(i);
    let gone = entries[i].0@;
    assert forall|a: int, b: int|
        0 <= a < rest.len() && 0 <= b < rest.len() && a != b
            implies #[trigger] rest[a].0@ != #[trigger] rest[b].0@ by {
        let oa = if a < i { a } else { a + 1 };
        let ob = if b < i { b } else { b + 1 };
        assert(rest[a] == entries[oa]);
        assert(rest[b] == entries[ob]);
        assert(entries[oa].0@ != entries[ob].0@);
    }
    let before = entries_table(entries);
    let after = entries_table(rest);
    assert forall|key: Seq<char>| #[trigger] after.contains_key(key) <==> before.remove(gone).contains_key(key) by {
        if after.contains_key(key) {
            let a = choose|a: int| 0 <= a < rest.len() && #[trigger] rest[a].0@ == key;
            let oa = if a < i { a } else { a + 1 };
            assert(rest[a] == entries[oa]);
            assert(holds_key(entries, key));
            assert(entries[oa].0@ != entries[i].0@);
        }
        if before.remove(gone).contains_key(key) {
            let o = choose|o: int| 0 <= o < entries.len() && #[trigger] entries[o].0@ == key;
            assert(o != i);
            let a = if o < i { o } else { o - 1 };
            assert(rest[a] == entries[o]);
            assert(holds_key(rest, key));
        }
    }
    assert forall|key: Seq<char>| #[trigger] after.contains_key(key) implies after[key] == before.remove(gone)[key] by {
        let a = choose|a: int| 0 <= a < rest.len() && #[trigger] rest[a].0@ == key;
        let oa = if a < i { a } else { a + 1 };
        assert(rest[a] == entries[oa]);
        lemma_table_lookup(rest, a);
        lemma_table_lookup(entries, oa);
    }
    assert(after =~= before.remove(gone));
}

proof fn lemma_table_push<C>(entries: Seq<(String, C)>, entry: (String, C))
    requires
        keys_unique(entries),
        !entries_table(entries).contains_key(entry.0@),
    ensures
        keys_unique(entries.push(entry)),
        entries_table(entries.push(entry)) == entries_table(entries).insert(entry.0@, entry.1),
{
    let more = entries.push(entry);
    let n = entries.len() as int;
    assert forall|a: int, b: int|
        0 <= a < more.len() && 0 <= b < more.len() && a != b
            implies #[trigger] more[a].0@ != #[trigger] more[b].0@ by {
        if a < n && b < n {
            assert(more[a] == entries[a]);
            assert(more[b] == entries[b]);
        } else if a < n {
            assert(more[a] == entries[a]);
            assert(holds_key(entries, entries[a].0@));
        } else {
            assert(more[b] == entries[b]);
            assert(holds_key(entries, entries[b].0@));
        }
    }
    let before = entries_table(entries);
    let after = entries_table(more);
    assert forall|key: Seq<char>| #[trigger] after.contains_key(key) <==> before.insert(entry.0@, entry.1).contains_key(key) by {
        if after.contains_key(key) {
            let a = choose|a: int| 0 <= a < more.len() && #[trigger] more[a].0@ == key;
            if a < n {
                assert(more[a] == entries[a]);
                assert(holds_key(entries, key));
            }
        }
        if before.contains_key(key) {
            let o = choose|o: int| 0 <= o < entries.len() && #[trigger] entries[o].0@ == key;
            assert(more[o] == entries[o]);
            assert(holds_key(more, key));
        }
        if key == entry.0@ {
            assert(more[n].0@ == key);
            assert(holds_key(more, key));
        }
    }
    assert forall|key: Seq<char>| #[trigger] after.contains_key(key) implies after[key] == before.insert(entry.0@, entry.1)[key] by {
        let a = choose|a: int| 0 <= a < more.len() && #[trigger] more[a].0@ == key;
        lemma_table_lookup(more, a);
        if a < n {
            assert(more[a] == entries[a]);
            lemma_table_lookup(entries, a);
        }
    }
    assert(after =~= before.insert(entry.0@, entry.1));
}

/// A scan that the radio answered succeeds with exactly the links it found,
/// in the order found, however many; a scan the radio failed fails with the
/// radio's error. The same holds of a scan of selected links.
pub proof fn law_scan_passes_answer_through(found: Vec<String>, error: Error)
    ensures
        scan_outcome(Ok(found)) matches Ok(Results::Scan { found: reported }) && reported == found,
        scan_outcome(Err(error)) == Err::<Results, Error>(error),
        scan_selected_outcome(Ok(found)) matches Ok(Results::ScanSelected { found: reported }) && reported == found,
        scan_selected_outcome(Err(error)) == Err::<Results, Error>(error),
{
}

/// A `connect` for a link whose held connection dropped, whatever its
/// message, takes the dropped connection out of the table and opens a new
/// link; only a connection that is still `Connected` refuses it.
pub proof fn law_dropped_connection_replaced<C>(table: Map<Seq<char>, C>, uri: String, status: ConnectionStatus)
    ensures
        status is Disconnected ==> resume_pending(Pending::ConnectCheck { uri }, Event::<C>::StatusRead(status)) == (Pending::Connect { uri }),
        status is Disconnected ==> resume_table(table, Pending::ConnectCheck { uri }, Event::<C>::StatusRead(status)) == table.remove(uri@),
        status is Connected ==> resume_pending(Pending::ConnectCheck { uri }, Event::<C>::StatusRead(status)) == Pending::Idle,
        status is Connected ==> resume_table(table, Pending::ConnectCheck { uri }, Event::<C>::StatusRead(status)) == table,
{
}

/// How many more events a pending request waits for, at most.
pub open spec fn events_left(pending: Pending) -> nat {
    match pending {
        Pending::Idle => 0,
        Pending::ConnectCheck { .. } => 2,
        _ => 1,
    }
}

/// Every request gets its reply: each event the pending request accepts
/// brings it closer to idle, and a request waits for at most two events.
pub proof fn law_requests_finish<C>(pending: Pending, event: Event<C>)
    requires
        accepts(pending, event),
    ensures
        events_left(resume_pending(pending, event)) < events_left(pending),
        events_left(pending) <= 2,
{
}

/// After a `connect` for a link succeeds, the table holds the new connection
/// for that link, and a status request for the link reads that connection.
pub proof fn law_status_after_connect<C>(
    table: Map<Seq<char>, C>,
    uri: String,
    link: OpenedLink<C>,
    query: String,
)
    requires
        query@ == uri@,
    ensures
        ({
            let after = resume_table(table, Pending::Connect { uri }, Event::Opened(Ok(link)));
            &&& after.contains_key(query@)
            &&& after[query@] == link.connection
            &&& begin_pending(after, Methods::GetConnectionStatus { uri: query }) == Pending::Status
        }),
{
}

/// After a `disconnect` for a link, the table no longer holds the link: a
/// status request or a second `disconnect` for it is answered at once (with
/// the does-not-exist error), and a `connect` opens a new link.
pub proof fn law_disconnect_forgets<C>(table: Map<Seq<char>, C>, uri: String, query: String)
    requires
        query@ == uri@,
    ensures
        ({
            let after = begin_table(table, Methods::Disconnect { uri });
            &&& !after.contains_key(query@)
            &&& begin_pending(after, Methods::GetConnectionStatus { uri: query }) == Pending::Idle
            &&& begin_pending(after, Methods::Disconnect { uri: query }) == Pending::Idle
            &&& begin_pending(after, Methods::Connect { uri: query }) == Pending::Connect { uri: query }
        }),
{
}

/// A `connect` for a link whose connection still reports itself connected is
/// refused, and the table keeps that connection.
pub proof fn law_active_connection_kept<C>(table: Map<Seq<char>, C>, uri: String)
    ensures
        resume_table(table, Pending::ConnectCheck { uri }, Event::<C>::StatusRead(ConnectionStatus::Connected)) == table,
        resume_pending(Pending::ConnectCheck { uri }, Event::<C>::StatusRead(ConnectionStatus::Connected)) == Pending::Idle,
{
}

/// A request for a link the table does not hold leaves the table as it was.
pub proof fn law_unknown_link_keeps_table<C>(table: Map<Seq<char>, C>, method: Methods)
    requires
        method_uri(method) matches Some(key) && !table.contains_key(key),
    ensures
        begin_table(table, method) == table,
{
    assert(begin_table(table, method) =~= table);
}

/// Links are independent: starting a request changes the table only at the
/// link the request names.
pub proof fn law_begin_touches_only_its_link<C>(table: Map<Seq<char>, C>, method: Methods, key: Seq<char>)
    requires
        method_uri(method) != Some(key),
    ensures
        begin_table(table, method).contains_key(key) == table.contains_key(key),
        table.contains_key(key) ==> begin_table(table, method)[key] == table[key],
{
}

/// Links are independent: an event changes the table only at the link of the
/// pending request.
pub proof fn law_resume_touches_only_its_link<C>(
    table: Map<Seq<char>, C>,
    pending: Pending,
    event: Event<C>,
    key: Seq<char>,
)
    requires
        pending_uri(pending) != Some(key),
    ensures
        resume_table(table, pending, event).contains_key(key) == table.contains_key(key),
        table.contains_key(key) ==> resume_table(table, pending, event)[key] == table[key],
{
}

/// One input to the request handling: a request that starts, or an event
/// that the request under way is resumed with.
pub enum Input<C> {
    Begin(Methods),
    Resume(Event<C>),
}

/// The table and the pending request after one input, as `begin` and
/// `resume` state them.
pub open spec fn apply_input<C>(table: Map<Seq<char>, C>, pending: Pending, input: Input<C>) -> (Map<Seq<char>, C>, Pending) {
    match input {
        Input::Begin(method) => (begin_table(table, method), begin_pending(table, method)),
        Input::Resume(event) => (resume_table(table, pending, event), resume_pending(pending, event)),
    }
}

/// The table and the pending request after a sequence of inputs.
pub open spec fn apply_inputs<C>(table: Map<Seq<char>, C>, pending: Pending, inputs: Seq<Input<C>>) -> (Map<Seq<char>, C>, Pending)
    decreases inputs.len(),
{
    if inputs.len() == 0 {
        (table, pending)
    } else {
        let next = apply_input(table, pending, inputs[0]);
        apply_inputs(next.0, next.1, inputs.drop_first())
    }
}

/// Whether the input starts a `connect` for the link.
pub open spec fn connects<C>(input: Input<C>, key: Seq<char>) -> bool {
    input matches Input::Begin(Methods::Connect { uri }) && uri@ == key
}

/// Whether the pending request is a `connect` for the link.
pub open spec fn pending_connect(pending: Pending, key: Seq<char>) -> bool {
    pending_uri(pending) == Some(key)
}

proof fn lemma_unknown_stays_unknown<C>(table: Map<Seq<char>, C>, pending: Pending, inputs: Seq<Input<C>>, key: Seq<char>)
    requires
        !table.contains_key(key),
        !pending_connect(pending, key),
        forall|i: int| 0 <= i < inputs.len() ==> !connects(#[trigger] inputs[i], key),
    ensures
        !apply_inputs(table, pending, inputs).0.contains_key(key),
        !pending_connect(apply_inputs(table, pending, inputs).1, key),
    decreases inputs.len(),
{
    if inputs.len() > 0 {
        let next = apply_input(table, pending, inputs[0]);
        assert(!connects(inputs[0], key));
        assert(!next.0.contains_key(key));
        assert(!pending_connect(next.1, key));
        let rest = inputs.drop_first();
        assert forall|i: int| 0 <= i < rest.len() implies !connects(#[trigger] rest[i], key) by {
            assert(rest[i] == inputs[i + 1]);
        }
        lemma_unknown_stays_unknown(next.0, next.1, rest, key);
    }
}

/// After a `disconnect` for a link, the link stays unknown whatever requests
/// and events come next, until a `connect` for it starts: a status request or
/// a `disconnect` for it is then answered at once with the does-not-exist
/// error (`begin` states the reply), and the table does not hold it.
pub proof fn law_disconnected_link_stays_unknown<C>(
    table: Map<Seq<char>, C>,
    uri: String,
    inputs: Seq<Input<C>>,
    query: String,
)
    requires
        query@ == uri@,
        forall|i: int| 0 <= i < inputs.len() ==> !connects(#[trigger] inputs[i], uri@),
    ensures
        ({
            let after_disconnect = apply_input(table, Pending::Idle, Input::Begin(Methods::Disconnect { uri }));
            let later = apply_inputs(after_disconnect.0, after_disconnect.1, inputs);
            &&& !later.0.contains_key(query@)
            &&& begin_pending(later.0, Methods::GetConnectionStatus { uri: query }) == Pending::Idle
            &&& begin_table(later.0, Methods::GetConnectionStatus { uri: query }) == later.0
            &&& begin_pending(later.0, Methods::Disconnect { uri: query }) == Pending::Idle
            &&& begin_table(later.0, Methods::Disconnect { uri: query }) == later.0
        }),
{
    let after_disconnect = apply_input(table, Pending::Idle, Input::Begin(Methods::Disconnect { uri }));
    assert(!after_disconnect.0.contains_key(uri@));
    lemma_unknown_stays_unknown(after_disconnect.0, after_disconnect.1, inputs, uri@);
    let later = apply_inputs(after_disconnect.0, after_disconnect.1, inputs);
    assert(later.0.remove(query@) =~= later.0);
}

/// The server's request handling: the table of open connections, keyed by
/// link, and the request under way.
///
/// A request starts with `begin`; each step it returns that is not a reply
/// asks the caller for outside work, whose result goes back in through
/// `resume`, until a reply comes.
#[verifier::reject_recursive_types(C)]
pub struct ServerCore<C> {
    version: String,
    entries: Vec<(String, C)>,
    pending: Pending,
}

impl<C> ServerCore<C> {
    /// The open connections, by link.
    pub closed spec fn table(self) -> Map<Seq<char>, C> {
        entries_table(self.entries@)
    }

    /// The version the server reports.
    pub closed spec fn version_text(self) -> Seq<char> {
        self.version@
    }

    /// The request under way.
    pub closed spec fn pending(self) -> Pending {
        self.pending
    }

    /// One entry per link, and a pending `connect` agrees with the table.
    #[verifier::type_invariant]
    spec fn wf(self) -> bool {
        &&& keys_unique(self.entries@)
        &&& match self.pending {
            Pending::ConnectCheck { uri } => self.table().contains_key(uri@),
            Pending::Connect { uri } => !self.table().contains_key(uri@),
            _ => true,
        }
    }

    /// A server with no connection and no request under way, which reports
    /// the given version.
    pub fn new(version: String) -> (core: Self)
        ensures
            core.table() == Map::<Seq<char>, C>::empty(),
            core.pending() == Pending::Idle,
            core.version_text() == version@,
    {
        let core = ServerCore { version, entries: Vec::new(), pending: Pending::Idle };
        assert(core.table() =~= Map::<Seq<char>, C>::empty());
        core
    }

    /// Whether no request is under way.
    pub fn is_idle(&self) -> (idle: bool)
        ensures
            idle == (self.pending() == Pending::Idle),
    {
        match self.pending {
            Pending::Idle => true,
            _ => false,
        }
    }

    fn find(&self, uri: &String) -> (found: Option<usize>)
        requires
            keys_unique(self.entries@),
        ensures
            match found {
                Some(i) => i < self.entries@.len() && self.entries@[i as int].0@ == uri@,
                None => !self.table().contains_key(uri@),
            },
    {
        let mut i: usize = 0;
        while i < self.entries.len()
            invariant
                i <= self.entries@.len(),
                forall|j: int| 0 <= j < i ==> #[trigger] self.entries@[j].0@ != uri@,
            decreases self.entries@.len() - i,
        {
            if self.entries[i].0 == *uri {
                return Some(i);
            }
            i = i + 1;
        }
        None
    }

    /// The connection held for a link, if any.
    pub fn connection(&self, uri: &String) -> (held: Option<&C>)
        ensures
            held is Some <==> self.table().contains_key(uri@),
            held matches Some(c) ==> *c == self.table()[uri@],
    {
        proof {
            use_type_invariant(self);
        }
        match self.find(uri) {
            Some(i) => {
                proof {
                    lemma_table_lookup(self.entries@, i as int);
                }
                Some(&self.entries[i].1)
            },
            None => None,
        }
    }

    fn not_found(uri: &String) -> (error: Error)
        ensures
            error matches Error::ArgumentError(message) && message@ == not_found_message(uri@),
    {
        let mut message = String::from_str("Connection does not exist for uri ");
        message.append(uri.as_str());
        Error::ArgumentError(message)
    }

    /// Starts a request: answers it at once, or asks for the outside work it needs.
    pub fn begin(&mut self, method: Methods) -> (step: Step<C>)
        requires
            old(self).pending() == Pending::Idle,
        ensures
            final(self).version_text() == old(self).version_text(),
            final(self).pending() == begin_pending(old(self).table(), method),
            final(self).table() == begin_table(old(self).table(), method),
            match method {
                Methods::GetVersion => step matches Step::Reply(Ok(Results::GetVersion(version)))
                    && version@ == old(self).version_text(),
                Methods::Scan { address } => step == Step::<C>::Scan { address },
                Methods::ScanSelected { uris } => step == Step::<C>::ScanSelected { uris },
                Methods::Connect { uri } => if old(self).table().contains_key(uri@) {
                    step == Step::<C>::ReadStatus { uri }
                } else {
                    step == Step::<C>::Open { uri }
                },
                Methods::GetConnectionStatus { uri } => if old(self).table().contains_key(uri@) {
                    step == Step::<C>::ReadStatus { uri }
                } else {
                    step matches Step::Reply(Err(Error::ArgumentError(message)))
                        && message@ == not_found_message(uri@)
                },
                Methods::Disconnect { uri } => if old(self).table().contains_key(uri@) {
                    step == Step::<C>::Close { connection: old(self).table()[uri@] }
                } else {
                    step matches Step::Reply(Err(Error::ArgumentError(message)))
                        && message@ == not_found_message(uri@)
                },
            },
    {
        proof {
            use_type_invariant(&*self);
        }
        match method {
            Methods::GetVersion => Step::Reply(Ok(Results::GetVersion(self.version.clone()))),
            Methods::Scan { address } => {
                self.pending = Pending::Scan;
                Step::Scan { address }
            },
            Methods::ScanSelected { uris } => {
                self.pending = Pending::ScanSelected;
                Step::ScanSelected { uris }
            },
            Methods::Connect { uri } => match self.find(&uri) {
                Some(i) => {
                    proof {
                        lemma_table_lookup(self.entries@, i as int);
                    }
                    self.pending = Pending::ConnectCheck { uri: uri.clone() };
                    Step::ReadStatus { uri }
                },
                None => {
                    self.pending = Pending::Connect { uri: uri.clone() };
                    Step::Open { uri }
                },
            },
            Methods::GetConnectionStatus { uri } => match self.find(&uri) {
                Some(i) => {
                    proof {
                        lemma_table_lookup(self.entries@, i as int);
                    }
                    self.pending = Pending::Status;
                    Step::ReadStatus { uri }
                },
                None => Step::Reply(Err(Self::not_found(&uri))),
            },
            Methods::Disconnect { uri } => match self.find(&uri) {
                Some(i) => {
                    proof {
                        lemma_table_lookup(self.entries@, i as int);
                        lemma_table_remove(self.entries@, i as int);
                    }
                    let mut entries: Vec<(String, C)> = Vec::new();
                    std::mem::swap(&mut entries, &mut self.entries);
                    let (_, connection) = entries.remove(i);
                    self.entries = entries;
                    self.pending = Pending::Close;
                    Step::Close { connection }
                },
                None => Step::Reply(Err(Self::not_found(&uri))),
            },
        }
    }

    /// Carries a request on with the result of the outside work it asked for.
    pub fn resume(&mut self, event: Event<C>) -> (step: Step<C>)
        requires
            accepts(old(self).pending(), event),
        ensures
            final(self).version_text() == old(self).version_text(),
            final(self).pending() == resume_pending(old(self).pending(), event),
            final(self).table() == resume_table(old(self).table(), old(self).pending(), event),
            match old(self).pending() {
                Pending::Scan => event matches Event::Scanned(scanned)
                    && step == Step::<C>::Reply(scan_outcome(scanned)),
                Pending::ScanSelected => event matches Event::Scanned(scanned)
                    && step == Step::<C>::Reply(scan_selected_outcome(scanned)),
                Pending::ConnectCheck { uri } => event matches Event::StatusRead(status) && if status_connected(status) {
                    step matches Step::Reply(Err(Error::ArgumentError(message)))
                        && message@ == already_active_message()
                } else {
                    step == Step::<C>::Open { uri }
                },
                Pending::Connect { uri } => event matches Event::Opened(opened) && match opened {
                    Err(error) => step == Step::<C>::Reply(Err(error)),
                    Ok(link) => step matches Step::Reply(Ok(Results::Connect { connected, status, push, pull }))
                        && connected == status_connected(link.status)
                        && status@ == status_text(link.status)
                        && push == link.pull_port
                        && pull == link.push_port,
                },
                Pending::Status => event matches Event::StatusRead(status)
                    && step matches Step::Reply(Ok(Results::GetConnectionStatus { connected, status: text }))
                    && connected == status_connected(status)
                    && text@ == status_text(status),
                Pending::Close => step == Step::<C>::Reply(Ok(Results::Disconnect)),
                Pending::Idle => false,
            },
            old(self).pending() == Pending::Scan ==> match event {
                Event::Scanned(Ok(found)) => step == Step::<C>::Reply(Ok(Results::Scan { found })),
                Event::Scanned(Err(error)) => step == Step::<C>::Reply(Err(error)),
                _ => false,
            },
            old(self).pending() == Pending::ScanSelected ==> match event {
                Event::Scanned(Ok(found)) => step == Step::<C>::Reply(Ok(Results::ScanSelected { found })),
                Event::Scanned(Err(error)) => step == Step::<C>::Reply(Err(error)),
                _ => false,
            },
            old(self).pending() is ConnectCheck ==> (event matches Event::StatusRead(status)
                && (status is Connected <==> step is Reply)
                && (status is Disconnected ==> step is Open && final(self).pending() is Connect)),
    {
        proof {
            use_type_invariant(&*self);
        }
        let mut pending = Pending::Idle;
        std::mem::swap(&mut pending, &mut self.pending);
        match pending {
            Pending::Scan => match event {
                Event::Scanned(Ok(found)) => Step::Reply(Ok(Results::Scan { found })),
                Event::Scanned(Err(error)) => Step::Reply(Err(error)),
                _ => unreached(),
            },
            Pending::ScanSelected => match event {
                Event::Scanned(Ok(found)) => Step::Reply(Ok(Results::ScanSelected { found })),
                Event::Scanned(Err(error)) => Step::Reply(Err(error)),
                _ => unreached(),
            },
            Pending::ConnectCheck { uri } => match event {
                Event::StatusRead(ConnectionStatus::Connected) => Step::Reply(
                    Err(Error::ArgumentError(String::from_str("Connection already active!"))),
                ),
                _ => {
                    let found = self.find(&uri);
                    match found {
                        Some(i) => {
                            proof {
                                lemma_table_remove(self.entries@, i as int);
                            }
                            let mut entries: Vec<(String, C)> = Vec::new();
                            std::mem::swap(&mut entries, &mut self.entries);
                            entries.remove(i);
                            self.entries = entries;
                        },
                        None => unreached(),
                    }
                    self.pending = Pending::Connect { uri: uri.clone() };
                    Step::Open { uri }
                },
            },
            Pending::Connect { uri } => match event {
                Event::Opened(Ok(link)) => {
                    let report = status_report(&link.status);
                    proof {
                        lemma_table_push(self.entries@, (uri, link.connection));
                    }
                    let mut entries: Vec<(String, C)> = Vec::new();
                    std::mem::swap(&mut entries, &mut self.entries);
                    entries.push((uri, link.connection));
                    self.entries = entries;
                    Step::Reply(Ok(Results::Connect {
                        connected: report.0,
                        status: report.1,
                        push: link.pull_port,
                        pull: link.push_port,
                    }))
                },
                Event::Opened(Err(error)) => Step::Reply(Err(error)),
                _ => unreached(),
            },
            Pending::Status => match event {
                Event::StatusRead(status) => {
                    let report = status_report(&status);
                    Step::Reply(Ok(Results::GetConnectionStatus { connected: report.0, status: report.1 }))
                },
                _ => unreached(),
            },
            Pending::Close => Step::Reply(Ok(Results::Disconnect)),
            Pending::Idle => unreached(),
        }
    }
}

} // verus!
