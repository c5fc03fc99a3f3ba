//! Client library for a home-automation bridge's REST API: lights, groups and
//! scenes are fetched, changed and written back through a transport.
use vstd::prelude::*;

pub mod batch;
pub mod groups;
pub mod json;
pub mod lights;
pub mod paths;
pub mod scenes;
pub mod settings;
pub mod state;
pub mod text;

verus! {

/// The ways in which an operation against the bridge can fail.
#[derive(Debug, Clone, PartialEq, Eq)]
pub enum HueError {
    /// The transport could not complete the call; its message is kept.
    Transport(String),
    /// The response body does not have the expected shape, or an
    /// identifier could not be parsed.
    Decode,
    /// The operation is not implemented by this client.
    NotImplemented,
}

/// The result of every operation of the library.
pub type Res<T> = Result<T, HueError>;

/// One call on the transport: its verb, path and body, and what came back.
pub struct Exchange {
    pub method: Method,
    pub path: Seq<char>,
    pub body: Option<Seq<char>>,
    pub reply: Res<String>,
}

/// The text of an optional string.
pub open spec fn text_of(o: Option<String>) -> Option<Seq<char>> {
    match o {
        Some(s) => Some(s@),
        None => None,
    }
}

/// Whether an exchange is a call of verb `m` on `path` carrying `body`.
pub open spec fn call_is(e: Exchange, m: Method, path: Seq<char>, body: Option<Seq<char>>) -> bool {
    e.method == m && e.path == path && e.body == body
}

/// Whether the record `after` continues the record `before`.
pub open spec fn extends(before: Seq<Exchange>, after: Seq<Exchange>) -> bool {
    after.len() >= before.len() && after.take(before.len() as int) == before
}

/// The exchanges that `after` adds to `before`.
pub open spec fn added(before: Seq<Exchange>, after: Seq<Exchange>) -> Seq<Exchange> {
    after.skip(before.len() as int)
}

/// One more exchange extends a record by just that exchange.
pub proof fn lemma_one_more(x: Seq<Exchange>, e: Exchange)
    ensures
        extends(x, x.push(e)),
        added(x, x.push(e)) == seq![e],
{
    assert(x.push(e).take(x.len() as int) =~= x);
    assert(added(x, x.push(e)) =~= seq![e]);
}

/// Records that extend one another add up.
pub proof fn lemma_chain(x: Seq<Exchange>, y: Seq<Exchange>, z: Seq<Exchange>)
    requires
        extends(x, y),
        extends(y, z),
    ensures
        extends(x, z),
        added(x, z) == added(x, y) + added(y, z),
{
    assert(z.take(x.len() as int) =~= y.take(x.len() as int));
    assert(added(x, z) =~= added(x, y) + added(y, z));
}

/// A record extends itself, adding nothing.
pub proof fn lemma_same(x: Seq<Exchange>)
    ensures
        extends(x, x),
        added(x, x) == Seq::<Exchange>::empty(),
{
    assert(x.take(x.len() as int) =~= x);
    assert(added(x, x) =~= Seq::<Exchange>::empty());
}

/// The outcome of an operation whose only result is its transport call's.
pub open spec fn unit_of<T>(r: Res<T>) -> Res<()> {
    match r {
        Ok(_) => Ok(()),
        Err(e) => Err(e),
    }
}

/// The exchanges of several steps, one after the other.
pub open spec fn concat_all(cs: Seq<Seq<Exchange>>) -> Seq<Exchange>
    decreases cs.len(),
{
    if cs.len() == 0 {
        Seq::empty()
    } else {
        concat_all(cs.drop_last()) + cs.last()
    }
}

/// The transport to the bridge: four verbs, each taking a path relative to
/// the bridge's API root and returning the raw response body. Decoding is
/// the caller's work. `exchanges` is the record of the calls made so far;
/// each verb adds its own call, with what it returned, and nothing else. A
/// transport that keeps no record, such as one outside verified code,
/// leaves the record unspecified.
pub trait HTTPClient {
    closed spec fn exchanges(&self) -> Seq<Exchange> {
        arbitrary()
    }

    fn get(&mut self, call: &str) -> (r: Res<String>)
        ensures
            final(self).exchanges() == old(self).exchanges().push(
                Exchange { method: Method::Get, path: call@, body: None, reply: r },
            ),
    ;

    fn post(&mut self, call: &str, body: String) -> (r: Res<String>)
        ensures
            final(self).exchanges() == old(self).exchanges().push(
                Exchange { method: Method::Post, path: call@, body: Some(body@), reply: r },
            ),
    ;

    fn put(&mut self, call: &str, body: String) -> (r: Res<String>)
        ensures
            final(self).exchanges() == old(self).exchanges().push(
                Exchange { method: Method::Put, path: call@, body: Some(body@), reply: r },
            ),
    ;

    fn delete(&mut self, call: &str) -> (r: Res<String>)
        ensures
            final(self).exchanges() == old(self).exchanges().push(
                Exchange { method: Method::Delete, path: call@, body: None, reply: r },
            ),
    ;
}

/// The verb of a request.
#[derive(Debug, Clone, Copy, PartialEq, Eq, Structural)]
pub enum Method {
    Get,
    Post,
    Put,
    Delete,
}

/// A request as the scripted transport received it, with its answer.
#[derive(Debug)]
pub struct Request {
    pub method: Method,
    pub path: String,
    pub body: Option<String>,
    pub reply: Res<String>,
}

/// A scripted transport for tests. A GET is answered by the first queued
/// reply; once the queue is empty, by `return_string`, or else by a
/// transport failure carrying `error`. POST, PUT and DELETE answer with an
/// empty body. Every request is recorded with its answer, and the last body
/// sent is kept.
#[derive(Debug)]
pub struct HTTPClientMock {
    pub body: Option<String>,
    pub return_string: Option<String>,
    pub error: Option<String>,
    pub replies: Vec<Res<String>>,
    pub requests: Vec<Request>,
}

/// A copy of a reply.
fn copy_reply(r: &Res<String>) -> (c: Res<String>)
    ensures
        c == *r,
{
    match r {
        Ok(s) => Ok(s.clone()),
        Err(HueError::Transport(m)) => Err(HueError::Transport(m.clone())),
        Err(HueError::Decode) => Err(HueError::Decode),
        Err(HueError::NotImplemented) => Err(HueError::NotImplemented),
    }
}

impl HTTPClientMock {
    /// A transport that answers nothing and fails every GET.
    pub fn new() -> (r: HTTPClientMock)
        ensures
            r.body is None,
            r.return_string is None,
            r.error is None,
            r.replies@.len() == 0,
            r.requests@.len() == 0,
    {
        HTTPClientMock {
            body: None,
            return_string: None,
            error: None,
            replies: Vec::new(),
            requests: Vec::new(),
        }
    }

    /// A transport that answers every GET with `reply`.
    pub fn replying(reply: String) -> (r: HTTPClientMock)
        ensures
            r.return_string == Some(reply),
            r.error is None,
            r.replies@.len() == 0,
            r.requests@.len() == 0,
    {
        let mut m = HTTPClientMock::new();
        m.return_string = Some(reply);
        m
    }

    /// A transport that answers GETs with `replies`, in order, and fails
    /// once they are used up.
    pub fn scripted(replies: Vec<Res<String>>) -> (r: HTTPClientMock)
        ensures
            r.return_string is None,
            r.replies == replies,
            r.requests@.len() == 0,
    {
        let mut m = HTTPClientMock::new();
        m.replies = replies;
        m
    }

    /// Appends a request and its answer to the record.
    fn record(&mut self, method: Method, call: &str, body: Option<String>, reply: &Res<String>)
        ensures
            final(self).requests@.len() == old(self).requests@.len() + 1,
            final(self).requests@.drop_last() == old(self).requests@,
            final(self).requests@.last().method == method,
            final(self).requests@.last().path@ == call@,
            final(self).requests@.last().body == body,
            final(self).requests@.last().reply == *reply,
            final(self).replies == old(self).replies,
            final(self).return_string == old(self).return_string,
            final(self).error == old(self).error,
            final(self).body == old(self).body,
    {
        self.requests.push(Request { method, path: call.to_owned(), body, reply: copy_reply(reply) });
        assert(self.requests@.drop_last() =~= old(self).requests@);
    }

    /// The number of requests received with the given verb.
    pub fn count(&self, method: Method) -> (r: usize)
        ensures
            r == count_in(self.requests@, method),
    {
        let mut n: usize = 0;
        let mut i: usize = 0;
        while i < self.requests.len()
            invariant
                n <= i <= self.requests@.len(),
                n == count_in(self.requests@.take(i as int), method),
            decreases self.requests@.len() - i,
        {
            proof {
                assert(self.requests@.take(i + 1).drop_last() =~= self.requests@.take(i as int));
            }
            if self.requests[i].method == method {
                n = n + 1;
            }
            i = i + 1;
        }
        proof {
            assert(self.requests@.take(i as int) =~= self.requests@);
        }
        n
    }

    /// Answers a GET: with the first queued reply, which leaves the queue;
    /// once the queue is empty, with `return_string`, or else with a
    /// transport failure carrying `error` (or nothing). The request is
    /// recorded with its answer.
    pub fn answer_get(&mut self, call: &str) -> (r: Res<String>)
        ensures
            final(self).requests@.drop_last() == old(self).requests@,
            final(self).requests@.len() == old(self).requests@.len() + 1,
            final(self).requests@.last().method == Method::Get,
            final(self).requests@.last().path@ == call@,
            final(self).requests@.last().body is None,
            final(self).requests@.last().reply == r,
            final(self).return_string == old(self).return_string,
            final(self).error == old(self).error,
            final(self).body == old(self).body,
            old(self).replies@.len() > 0 ==> r == old(self).replies@[0] && final(self).replies@
                == old(self).replies@.drop_first(),
            old(self).replies@.len() == 0 ==> final(self).replies@.len() == 0 && match old(
                self,
            ).return_string {
                Some(s) => r == Ok::<String, HueError>(s),
                None => r is Err && r->Err_0 is Transport && r->Err_0->Transport_0@ == match old(
                    self,
                ).error {
                    Some(e) => e@,
                    None => Seq::<char>::empty(),
                },
            },
    {
        let r = if self.replies.len() > 0 {
            let r = self.replies.remove(0);
            assert(self.replies@ =~= old(self).replies@.drop_first());
            r
        } else {
            match &self.return_string {
                Some(s) => Ok(s.clone()),
                None => Err(
                    HueError::Transport(
                        match &self.error {
                            Some(e) => e.clone(),
                            None => String::new(),
                        },
                    ),
                ),
            }
        };
        self.record(Method::Get, call, None, &r);
        r
    }

    /// Answers a POST, PUT or DELETE with an empty body, keeping the body
    /// sent, if any. The request is recorded with its answer.
    fn answer_write(&mut self, method: Method, call: &str, body: Option<String>) -> (r: Res<String>)
        ensures
            final(self).requests@.drop_last() == old(self).requests@,
            final(self).requests@.len() == old(self).requests@.len() + 1,
            final(self).requests@.last().method == method,
            final(self).requests@.last().path@ == call@,
            text_of(final(self).requests@.last().body) == text_of(body),
            final(self).requests@.last().reply == r,
            r is Ok && r->Ok_0@.len() == 0,
    {
        let r: Res<String> = Ok(String::new());
        let kept = match &body {
            Some(b) => Some(b.clone()),
            None => None,
        };
        self.record(method, call, body, &r);
        if kept.is_some() {
            self.body = kept;
        }
        r
    }
}

/// The record of a scripted transport's requests, as exchanges.
pub open spec fn mock_exchanges(rs: Seq<Request>) -> Seq<Exchange> {
    rs.map_values(
        |q: Request| Exchange { method: q.method, path: q.path@, body: text_of(q.body), reply: q.reply },
    )
}

/// The number of requests in `rs` with verb `m`.
pub open spec fn count_in(rs: Seq<Request>, m: Method) -> nat
    decreases rs.len(),
{
    if rs.len() == 0 {
        0
    } else {
        count_in(rs.drop_last(), m) + if rs.last().method == m {
            1nat
        } else {
            0nat
        }
    }
}

impl Default for HTTPClientMock {
    fn default() -> (r: HTTPClientMock)
        ensures
            r.return_string is None,
            r.replies@.len() == 0,
            r.requests@.len() == 0,
    {
        HTTPClientMock::new()
    }
}

impl HTTPClient for HTTPClientMock {
    open spec fn exchanges(&self) -> Seq<Exchange> {
        mock_exchanges(self.requests@)
    }

    fn get(&mut self, call: &str) -> (r: Res<String>) {
        let r = self.answer_get(call);
        assert(mock_exchanges(self.requests@) =~= mock_exchanges(old(self).requests@).push(
            Exchange { method: Method::Get, path: call@, body: None, reply: r },
        ));
        r
    }

    fn post(&mut self, call: &str, body: String) -> (r: Res<String>) {
        let ghost b = body@;
        let r = self.answer_write(Method::Post, call, Some(body));
        assert(mock_exchanges(self.requests@) =~= mock_exchanges(old(self).requests@).push(
            Exchange { method: Method::Post, path: call@, body: Some(b), reply: r },
        ));
        r
    }

    fn put(&mut self, call: &str, body: String) -> (r: Res<String>) {
        let ghost b = body@;
        let r = self.answer_write(Method::Put, call, Some(body));
        assert(mock_exchanges(self.requests@) =~= mock_exchanges(old(self).requests@).push(
            Exchange { method: Method::Put, path: call@, body: Some(b), reply: r },
        ));
        r
    }

    fn delete(&mut self, call: &str) -> (r: Res<String>) {
        let r = self.answer_write(Method::Delete, call, None);
        assert(mock_exchanges(self.requests@) =~= mock_exchanges(old(self).requests@).push(
            Exchange { method: Method::Delete, path: call@, body: None, reply: r },
        ));
        r
    }
}

} // verus!
