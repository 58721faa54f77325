//! The client stream session: outbound configuration requests, inbound
//! demultiplexing under a monotonically increasing session identifier, and
//! the silent-drop policy for undecodable batch elements.
//!
//! The session core is a state machine from state and inbound value to next
//! state and action; the transport that feeds it lives outside the library.

use vstd::prelude::*;

verus! {

/// A protocol cursor: a server-defined pointer into the chain stream.
#[derive(Clone, PartialEq, Eq, Debug)]
pub struct Cursor {
    pub order_key: u64,
    pub unique_key: Vec<u8>,
}

/// Degrees of permanence for streamed data.
#[derive(Clone, Copy, PartialEq, Eq, Debug, Structural)]
pub enum DataFinality {
    Unspecified,
    Pending,
    AcceptedOnL2,
    AcceptedOnL1,
}

/// The wire code of a finality value.
pub open spec fn spec_finality_code(f: DataFinality) -> i32 {
    match f {
        DataFinality::Unspecified => 0,
        DataFinality::Pending => 1,
        DataFinality::AcceptedOnL2 => 2,
        DataFinality::AcceptedOnL1 => 3,
    }
}

/// The finality a wire code denotes; unknown codes read as `Unspecified`.
pub open spec fn spec_finality_from_code(c: i32) -> DataFinality {
    if c == 1 {
        DataFinality::Pending
    } else if c == 2 {
        DataFinality::AcceptedOnL2
    } else if c == 3 {
        DataFinality::AcceptedOnL1
    } else {
        DataFinality::Unspecified
    }
}

impl DataFinality {
    pub fn code(&self) -> (r: i32)
        ensures
            r == spec_finality_code(*self),
    {
        match self {
            DataFinality::Unspecified => 0,
            DataFinality::Pending => 1,
            DataFinality::AcceptedOnL2 => 2,
            DataFinality::AcceptedOnL1 => 3,
        }
    }

    pub fn from_code(c: i32) -> (r: DataFinality)
        ensures
            r == spec_finality_from_code(c),
    {
        if c == 1 {
            DataFinality::Pending
        } else if c == 2 {
            DataFinality::AcceptedOnL2
        } else if c == 3 {
            DataFinality::AcceptedOnL1
        } else {
            DataFinality::Unspecified
        }
    }
}

/// A configuration for the stream; the filter payload is already encoded.
#[derive(Clone, PartialEq, Eq, Debug)]
pub struct Configuration {
    pub batch_size: u64,
    pub starting_cursor: Option<Cursor>,
    pub finality: Option<DataFinality>,
    pub filter: Vec<u8>,
}

impl Default for Configuration {
    /// The default configuration: batches of 20, from the stream head, with
    /// no finality constraint and an empty filter.
    fn default() -> (r: Configuration)
        ensures
            r.batch_size == 20,
            r.starting_cursor is None,
            r.finality is None,
            r.filter@ == Seq::<u8>::empty(),
    {
        Configuration { batch_size: 20, starting_cursor: None, finality: None, filter: Vec::new() }
    }
}

impl Configuration {
    pub fn with_batch_size(self, batch_size: u64) -> (r: Configuration)
        ensures
            r == (Configuration { batch_size, ..self }),
    {
        Configuration { batch_size, ..self }
    }

    /// Starts the stream at the block with the given height.
    pub fn with_starting_block(self, block_number: u64) -> (r: Configuration)
        ensures
            r.batch_size == self.batch_size,
            r.finality == self.finality,
            r.filter == self.filter,
            r.starting_cursor matches Some(c) && c.order_key == block_number && c.unique_key@
                == Seq::<u8>::empty(),
    {
        Configuration {
            starting_cursor: Some(Cursor { order_key: block_number, unique_key: Vec::new() }),
            ..self
        }
    }

    pub fn with_starting_cursor(self, cursor: Cursor) -> (r: Configuration)
        ensures
            r == (Configuration { starting_cursor: Some(cursor), ..self }),
    {
        Configuration { starting_cursor: Some(cursor), ..self }
    }

    pub fn with_finality(self, finality: DataFinality) -> (r: Configuration)
        ensures
            r == (Configuration { finality: Some(finality), ..self }),
    {
        Configuration { finality: Some(finality), ..self }
    }

    /// Uses the given encoded filter payload.
    pub fn with_filter(self, filter: Vec<u8>) -> (r: Configuration)
        ensures
            r == (Configuration { filter, ..self }),
    {
        Configuration { filter, ..self }
    }
}

/// An outbound request: re-subscribes the stream under a new session id.
#[derive(Clone, PartialEq, Eq, Debug)]
pub struct StreamDataRequest {
    pub stream_id: Option<u64>,
    pub batch_size: Option<u64>,
    pub starting_cursor: Option<Cursor>,
    pub finality: Option<i32>,
    pub filter: Vec<u8>,
}

/// An inbound batch of encoded data elements.
#[derive(Clone, PartialEq, Eq, Debug)]
pub struct DataBatch {
    pub cursor: Option<Cursor>,
    pub end_cursor: Option<Cursor>,
    pub finality: i32,
    pub data: Vec<Vec<u8>>,
}

/// An inbound invalidation: discard data strictly after the cursor.
#[derive(Clone, PartialEq, Eq, Debug)]
pub struct Invalidation {
    pub cursor: Option<Cursor>,
}

/// The payload of an inbound response.
#[derive(Clone, PartialEq, Eq, Debug)]
pub enum ResponseMessage {
    Data(DataBatch),
    Invalidate(Invalidation),
    Heartbeat,
}

/// An inbound response, tagged with the session id it answers.
#[derive(Clone, PartialEq, Eq, Debug)]
pub struct StreamDataResponse {
    pub stream_id: u64,
    pub message: Option<ResponseMessage>,
}

/// A message surfaced to the consumer.
#[derive(Clone, PartialEq, Eq, Debug)]
pub enum DataMessage<D> {
    /// A contiguous batch; `cursor` is its exclusive start, `end_cursor` its
    /// inclusive end.
    Data { cursor: Option<Cursor>, end_cursor: Cursor, finality: DataFinality, batch: Vec<D> },
    /// Discard all data received strictly after the cursor.
    Invalidate { cursor: Option<Cursor> },
}

/// What a progress step does with one inbound response.
#[derive(Clone, PartialEq, Eq, Debug)]
pub enum PollOutcome {
    /// Surface this message.
    Emit(DataMessage<Vec<u8>>),
    /// Drop the response silently and poll again.
    Skip,
}

/// Whether a response is surfaced by a session whose current id is
/// `stream_id`: it must answer that id and carry a payload other than a
/// heartbeat.
pub open spec fn surfaces(stream_id: u64, response: StreamDataResponse) -> bool {
    &&& response.stream_id == stream_id
    &&& response.message is Some
    &&& !(response.message matches Some(ResponseMessage::Heartbeat))
}

/// The session core: the monotonically increasing stream id.
#[derive(Clone, Copy, PartialEq, Eq, Debug, Structural)]
pub struct DataStream {
    pub stream_id: u64,
}

impl DataStream {
    /// A fresh session, before any configuration was sent.
    pub fn new() -> (r: DataStream)
        ensures
            r.stream_id == 0,
    {
        DataStream { stream_id: 0 }
    }

    /// Applies a new configuration: bumps the session id and builds the
    /// request that re-subscribes the stream under it.
    pub fn on_configuration(&mut self, configuration: Configuration) -> (r: StreamDataRequest)
        requires
            old(self).stream_id < u64::MAX,
        ensures
            final(self).stream_id == old(self).stream_id + 1,
            r.stream_id == Some(final(self).stream_id),
            r.batch_size == Some(configuration.batch_size),
            r.starting_cursor == configuration.starting_cursor,
            match configuration.finality {
                Some(f) => r.finality == Some(spec_finality_code(f)),
                None => r.finality is None,
            },
            r.filter == configuration.filter,
    {
        self.stream_id = self.stream_id + 1;
        let finality: Option<i32> = match &configuration.finality {
            Some(f) => Some(f.code()),
            None => None,
        };
        StreamDataRequest {
            stream_id: Some(self.stream_id),
            batch_size: Some(configuration.batch_size),
            starting_cursor: configuration.starting_cursor,
            finality,
            filter: configuration.filter,
        }
    }

    /// Routes one inbound response: responses for another session id, empty
    /// responses, and heartbeats are dropped; a batch or an invalidation for
    /// the current id is surfaced with its fields carried over verbatim.
    pub fn on_response(&self, response: StreamDataResponse) -> (r: PollOutcome)
        ensures
            r is Emit <==> surfaces(self.stream_id, response),
            response.stream_id == self.stream_id ==> (response.message matches Some(
                ResponseMessage::Invalidate(inv),
            ) ==> r == PollOutcome::Emit(DataMessage::Invalidate { cursor: inv.cursor })),
            response.stream_id == self.stream_id ==> (response.message matches Some(
                ResponseMessage::Data(d),
            ) ==> (r matches PollOutcome::Emit(
                DataMessage::Data { cursor, end_cursor, finality, batch },
            ) && cursor == d.cursor && batch == d.data && finality == spec_finality_from_code(
                d.finality,
            ) && (match d.end_cursor {
                Some(c) => end_cursor == c,
                None => end_cursor.order_key == 0 && end_cursor.unique_key@ == Seq::<u8>::empty(),
            }))),
    {
        if response.stream_id != self.stream_id {
            return PollOutcome::Skip;
        }
        match response.message {
            None => PollOutcome::Skip,
            Some(ResponseMessage::Heartbeat) => PollOutcome::Skip,
            Some(ResponseMessage::Data(d)) => {
                let end_cursor = match d.end_cursor {
                    Some(c) => c,
                    None => Cursor { order_key: 0, unique_key: Vec::new() },
                };
                PollOutcome::Emit(
                    DataMessage::Data {
                        cursor: d.cursor,
                        end_cursor,
                        finality: DataFinality::from_code(d.finality),
                        batch: d.data,
                    },
                )
            },
            Some(ResponseMessage::Invalidate(inv)) => {
                PollOutcome::Emit(DataMessage::Invalidate { cursor: inv.cursor })
            },
        }
    }
}

/// The decoded values of a batch, in order, with failed decodes dropped.
pub open spec fn some_values<D>(s: Seq<Option<D>>) -> Seq<D>
    decreases s.len(),
{
    if s.len() == 0 {
        Seq::empty()
    } else {
        let rest = some_values(s.drop_last());
        match s.last() {
            Some(d) => rest.push(d),
            None => rest,
        }
    }
}

/// Keeps the successfully decoded elements of a batch, in order, silently
/// dropping the failures.
pub fn keep_decoded<D>(items: Vec<Option<D>>) -> (r: Vec<D>)
    ensures
        r@ == some_values(items@),
{
    let ghost orig = items@;
    let mut items = items;
    let mut rev: Vec<Option<D>> = Vec::new();
    while items.len() > 0
        invariant
            items@ == orig.take(items@.len() as int),
            rev@.len() + items@.len() == orig.len(),
            forall|j: int| 0 <= j < rev@.len() ==> rev@[j] == orig[orig.len() - 1 - j],
        decreases items@.len(),
    {
        proof {
            assert(items@.last() == orig[items@.len() - 1]);
            assert(items@.drop_last() =~= orig.take(items@.len() - 1));
        }
        match items.pop() {
            Some(x) => {
                rev.push(x);
            },
            None => {
                proof {
                    assert(false);
                }
            },
        }
    }
    let mut out: Vec<D> = Vec::new();
    while rev.len() > 0
        invariant
            rev@.len() <= orig.len(),
            forall|j: int| 0 <= j < rev@.len() ==> rev@[j] == orig[orig.len() - 1 - j],
            out@ == some_values(orig.take(orig.len() - rev@.len())),
        decreases rev@.len(),
    {
        let ghost n = orig.len() - rev@.len();
        proof {
            assert(rev@.last() == orig[n]);
            assert(orig.take(n + 1).drop_last() =~= orig.take(n as int));
            assert(orig.take(n + 1).last() == orig[n]);
        }
        match rev.pop() {
            Some(x) => {
                match x {
                    Some(d) => {
                        out.push(d);
                    },
                    None => {},
                }
            },
            None => {
                proof {
                    assert(false);
                }
            },
        }
    }
    proof {
        assert(orig.take(orig.len() as int) =~= orig);
    }
    out
}

/// One event a session processes: a configuration sent by the consumer, or
/// a response received from the server.
pub enum SessionEvent {
    Configure,
    Respond(StreamDataResponse),
}

/// The session id after processing the first `i` events of a trace from a
/// fresh session: the number of configurations among them.
pub open spec fn session_id_at(tr: Seq<SessionEvent>, i: int) -> int
    decreases i,
{
    if i <= 0 {
        0
    } else {
        session_id_at(tr, i - 1) + (if tr[i - 1] is Configure {
            1int
        } else {
            0int
        })
    }
}

/// A trace surfaces the response at position `i` iff the session, holding
/// the id reached there, surfaces it.
pub open spec fn emits_at(tr: Seq<SessionEvent>, i: int) -> bool {
    &&& tr[i] matches SessionEvent::Respond(resp)
    &&& 0 <= session_id_at(tr, i) <= u64::MAX
    &&& surfaces(session_id_at(tr, i) as u64, resp)
}

/// The session id never regresses along a trace.
pub proof fn lemma_session_id_monotonic(tr: Seq<SessionEvent>, j: int, i: int)
    requires
        0 <= j <= i,
    ensures
        session_id_at(tr, j) <= session_id_at(tr, i),
    decreases i - j,
{
    if j < i {
        lemma_session_id_monotonic(tr, j, i - 1);
    }
}

/// Session id gating: a response surfaced at position `i` of a trace
/// carries exactly the number of configurations sent before it — never the
/// id of an earlier configuration window.
pub proof fn lemma_session_id_gating(tr: Seq<SessionEvent>, i: int, resp: StreamDataResponse)
    requires
        0 <= i < tr.len(),
        tr[i] == SessionEvent::Respond(resp),
        emits_at(tr, i),
    ensures
        resp.stream_id == session_id_at(tr, i),
        forall|j: int| 0 <= j <= i ==> resp.stream_id >= session_id_at(tr, j),
{
    assert forall|j: int| 0 <= j <= i implies resp.stream_id >= session_id_at(tr, j) by {
        lemma_session_id_monotonic(tr, j, i);
    }
}

/// The builder for a stream connection: a bearer token and an initial
/// configuration, both optional.
pub struct ClientBuilder {
    pub token: Option<String>,
    pub configuration: Option<Configuration>,
}

impl Default for ClientBuilder {
    fn default() -> (r: ClientBuilder)
        ensures
            r.token is None,
            r.configuration is None,
    {
        ClientBuilder { token: None, configuration: None }
    }
}

impl ClientBuilder {
    /// Uses the given token to authenticate with the server.
    pub fn with_bearer_token(self, token: String) -> (r: ClientBuilder)
        ensures
            r.token == Some(token),
            r.configuration == self.configuration,
    {
        ClientBuilder { token: Some(token), ..self }
    }

    /// Sends the given configuration upon connect.
    pub fn with_configuration(self, configuration: Configuration) -> (r: ClientBuilder)
        ensures
            r.token == self.token,
            r.configuration == Some(configuration),
    {
        ClientBuilder { configuration: Some(configuration), ..self }
    }
}

} // verus!
