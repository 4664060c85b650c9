//! The probe endpoint: reading a request, routing it, and the answers.
//!
//! Liveness and readiness differ: a leader that is elected and does not
//! serve yet is alive and not ready.

use crate::node::ingress;
use crate::obs::metrics;
use crate::obs::metrics::{heartbeat_age_ns, render_prometheus, ObsSources};
use crate::text;
use crate::text::{bool_str, chars_of, find, push_decimal, same_text, string_between};
use vstd::prelude::*;
use vstd::string::StringExecFns;

verus! {

/// The age at which a heartbeat counts as stopped.
pub const HEARTBEAT_STALE_NS: u64 = 3_000_000_000;

/// How many bytes of a request are read at most.
pub const REQUEST_CAP: usize = 4096;

/// How long one read may take, in nanoseconds.
pub const READ_TIMEOUT_NS: u64 = 1_000_000_000;

/// How long a connection's reads may take altogether, in nanoseconds.
pub const CONN_DEADLINE_NS: u64 = 2_000_000_000;

/// Whether the header's end stands in `buf`, at `from` or later.
pub open spec fn ends_from(buf: Seq<u8>, from: int) -> bool {
    exists|i: int|
        from <= i && i + 4 <= buf.len() && #[trigger] buf[i] == 13 && buf[i + 1] == 10 && buf[i + 2]
            == 13 && buf[i + 3] == 10
}

/// Whether the header's end stands in `buf`.
pub open spec fn ends(buf: Seq<u8>) -> bool {
    ends_from(buf, 0)
}

/// Whether the header's end stands in `buf`, at `from` or later.
pub fn header_ends(buf: &Vec<u8>, from: usize) -> (r: bool)
    ensures
        r == ends_from(buf@, from as int),
{
    let mut i: usize = from;
    while i < buf.len() && buf.len() - i >= 4
        invariant
            from <= i,
            forall|j: int|
                from <= j < i && j + 4 <= buf.len() ==> !(#[trigger] buf@[j] == 13 && buf@[j + 1]
                    == 10 && buf@[j + 2] == 13 && buf@[j + 3] == 10),
        decreases buf.len() - i,
    {
        if buf[i] == 13 && buf[i + 1] == 10 && buf[i + 2] == 13 && buf[i + 3] == 10 {
            assert(buf@[i as int] == 13);
            return true;
        }
        i = i + 1;
    }
    false
}

/// A request being read.
#[derive(Debug)]
pub struct RequestReader {
    pub buf: Vec<u8>,
    /// Whether the header's end was seen.
    pub terminated: bool,
    /// Whether the peer stopped sending.
    pub closed: bool,
}

/// What to do with a connection.
#[derive(Debug, Clone, Copy, PartialEq, Eq, Structural)]
pub enum ConnStep {
    /// Read on, for at most this long.
    Read { timeout_ns: u64 },
    /// Answer what was read.
    Answer,
    /// Close without an answer.
    Drop,
}

impl RequestReader {
    /// Nothing read yet.
    pub fn new() -> (r: RequestReader)
        ensures
            r.buf@ == Seq::<u8>::empty(),
            !r.terminated,
            !r.closed,
            r.wf(),
    {
        RequestReader { buf: Vec::new(), terminated: false, closed: false }
    }

    /// The flag says what the bytes show.
    pub open spec fn wf(self) -> bool {
        self.terminated == ends(self.buf@)
    }

    /// What comes next, `elapsed_ns` after the connection was accepted.
    pub open spec fn due(self, elapsed_ns: u64) -> ConnStep {
        if self.closed || self.terminated || self.buf@.len() >= REQUEST_CAP {
            ConnStep::Answer
        } else if elapsed_ns >= CONN_DEADLINE_NS {
            ConnStep::Drop
        } else if CONN_DEADLINE_NS - elapsed_ns <= READ_TIMEOUT_NS {
            ConnStep::Read { timeout_ns: (CONN_DEADLINE_NS - elapsed_ns) as u64 }
        } else {
            ConnStep::Read { timeout_ns: READ_TIMEOUT_NS }
        }
    }

    /// What comes next, `elapsed_ns` after the connection was accepted. A
    /// read that timed out changes nothing: ask again.
    pub fn step(&self, elapsed_ns: u64) -> (s: ConnStep)
        ensures
            s == self.due(elapsed_ns),
    {
        if self.closed || self.terminated || self.buf.len() >= REQUEST_CAP {
            return ConnStep::Answer;
        }
        let remaining: u64 = CONN_DEADLINE_NS.saturating_sub(elapsed_ns);
        if remaining == 0 {
            return ConnStep::Drop;
        }
        if remaining <= READ_TIMEOUT_NS {
            ConnStep::Read { timeout_ns: remaining }
        } else {
            ConnStep::Read { timeout_ns: READ_TIMEOUT_NS }
        }
    }

    /// Bytes came in; none at all means that the peer stopped sending. Only
    /// where old and new bytes meet, and beyond, can a new end stand.
    pub fn received(&mut self, chunk: &Vec<u8>)
        requires
            old(self).wf(),
            !old(self).terminated,
        ensures
            final(self).wf(),
            final(self).buf@ == old(self).buf@ + chunk@,
            final(self).closed == (old(self).closed || chunk@.len() == 0),
    {
        let from: usize = self.buf.len().saturating_sub(3);
        let ghost before = self.buf@;
        let mut i: usize = 0;
        while i < chunk.len()
            invariant
                i <= chunk.len(),
                self.buf@ == before + chunk@.take(i as int),
                self.closed == old(self).closed,
            decreases chunk.len() - i,
        {
            self.buf.push(chunk[i]);
            i = i + 1;
            assert(self.buf@ =~= before + chunk@.take(i as int));
        }
        assert(chunk@.take(i as int) =~= chunk@);
        if chunk.len() == 0 {
            self.closed = true;
        }
        self.terminated = header_ends(&self.buf, from);
        proof {
            if ends(self.buf@) {
                let i = choose|i: int|
                    0 <= i && i + 4 <= self.buf@.len() && #[trigger] self.buf@[i] == 13
                        && self.buf@[i + 1] == 10 && self.buf@[i + 2] == 13 && self.buf@[i + 3]
                        == 10;
                if i < from {
                    assert(before[i] == 13 && before[i + 1] == 10 && before[i + 2] == 13
                        && before[i + 3] == 10);
                    assert(ends(before));
                }
            }
        }
    }
}

/// `std::str::from_utf8`: the text that `bytes` encode, and none exactly
/// where they are not well-formed UTF-8.
#[verifier::external_body]
fn decoded(bytes: &Vec<u8>) -> (r: Option<String>)
    ensures
        r is Some == vstd::utf8::valid_utf8(bytes@),
        r matches Some(s) ==> s@ == vstd::utf8::decode_utf8(bytes@),
{
    match std::str::from_utf8(bytes.as_slice()) {
        Ok(s) => Some(s.to_owned()),
        Err(_) => None,
    }
}

/// Whether `c` separates words: it has the Unicode property White_Space.
pub open spec fn is_white(c: char) -> bool {
    let n = c as int;
    9 <= n <= 13 || n == 0x20 || n == 0x85 || n == 0xA0 || n == 0x1680 || 0x2000 <= n <= 0x200A
        || n == 0x2028 || n == 0x2029 || n == 0x202F || n == 0x205F || n == 0x3000
}

/// Whether `c` separates words.
pub fn white(c: char) -> (r: bool)
    ensures
        r == is_white(c),
{
    let n: u32 = c as u32;
    (9 <= n && n <= 13) || n == 0x20 || n == 0x85 || n == 0xA0 || n == 0x1680 || (0x2000 <= n && n
        <= 0x200A) || n == 0x2028 || n == 0x2029 || n == 0x202F || n == 0x205F || n == 0x3000
}

/// `s` without leading white space.
pub open spec fn after_white(s: Seq<char>) -> Seq<char>
    decreases s.len(),
{
    if s.len() > 0 && is_white(s[0]) {
        after_white(s.skip(1))
    } else {
        s
    }
}

/// `s` up to the first white space.
pub open spec fn word(s: Seq<char>) -> Seq<char>
    decreases s.len(),
{
    if s.len() == 0 || is_white(s[0]) {
        Seq::empty()
    } else {
        seq![s[0]] + word(s.skip(1))
    }
}

/// The first word of a request line.
pub open spec fn method_of(line: Seq<char>) -> Seq<char> {
    word(after_white(line))
}

/// The second word of a request line, without a query.
pub open spec fn path_of(line: Seq<char>) -> Seq<char> {
    let s = after_white(line);
    text::until(word(after_white(s.skip(word(s).len() as int))), '?')
}

/// Where in `v` the white space that starts at `from` ends.
fn pass_white(v: &Vec<char>, from: usize) -> (r: usize)
    requires
        from <= v.len(),
    ensures
        from <= r <= v.len(),
        v@.skip(r as int) == after_white(v@.skip(from as int)),
{
    let mut i: usize = from;
    while i < v.len()
        invariant
            from <= i <= v.len(),
            after_white(v@.skip(i as int)) == after_white(v@.skip(from as int)),
        decreases v.len() - i,
    {
        if !white(v[i]) {
            return i;
        }
        assert(v@.skip(i as int).skip(1) =~= v@.skip(i as int + 1));
        i = i + 1;
    }
    i
}

/// Where in `v` the word that starts at `from` ends.
fn pass_word(v: &Vec<char>, from: usize) -> (r: usize)
    requires
        from <= v.len(),
    ensures
        from <= r <= v.len(),
        v@.subrange(from as int, r as int) == word(v@.skip(from as int)),
{
    let mut i: usize = from;
    let ghost whole = v@.skip(from as int);
    assert(v@.subrange(from as int, i as int) + word(v@.skip(i as int)) =~= word(whole));
    while i < v.len()
        invariant
            from <= i <= v.len(),
            whole == v@.skip(from as int),
            v@.subrange(from as int, i as int) + word(v@.skip(i as int)) == word(whole),
        decreases v.len() - i,
    {
        if white(v[i]) {
            assert(v@.subrange(from as int, i as int) =~= word(whole));
            return i;
        }
        assert(v@.skip(i as int).skip(1) =~= v@.skip(i as int + 1));
        assert(v@.subrange(from as int, i as int + 1) =~= v@.subrange(from as int, i as int)
            + seq![v@.skip(i as int)[0]]);
        i = i + 1;
        assert(v@.subrange(from as int, i as int) + word(v@.skip(i as int)) =~= word(whole));
    }
    assert(v@.subrange(from as int, i as int) =~= word(whole));
    i
}

/// The method and the path of the request in `text`.
pub fn request_target(text: &str) -> (r: (String, String))
    ensures
        r.0@ == method_of(text::first_line(text@)),
        r.1@ == path_of(text::first_line(text@)),
{
    let all = chars_of(text);
    let end: usize = find(&all, 0, all.len(), '\n');
    assert(all@.subrange(0, all@.len() as int) =~= text@);
    let ghost l = text::until(text@, '\n');
    assert(l =~= text@.take(end as int));
    let cut: usize = if end < all.len() && end > 0 && all[end - 1] == '\r' {
        end - 1
    } else {
        end
    };
    let line = string_between(&all, 0, cut);
    assert(line@ =~= text::first_line(text@));
    let v = chars_of(line.as_str());
    let a: usize = pass_white(&v, 0);
    assert(v@.skip(0) =~= v@);
    let b: usize = pass_word(&v, a);
    let method = string_between(&v, a, b);
    let ghost s = after_white(v@);
    assert(s.skip(word(s).len() as int) =~= v@.skip(b as int));
    let c: usize = pass_white(&v, b);
    let d: usize = pass_word(&v, c);
    let e: usize = find(&v, c, d, '?');
    let path = string_between(&v, c, e);
    (method, path)
}

/// An answer.
#[derive(Debug)]
pub struct Response {
    pub status: u16,
    pub content_type: &'static str,
    pub body: String,
}

/// What an answer says.
#[verifier::ext_equal]
pub struct ResponseV {
    pub status: u16,
    pub content_type: Seq<char>,
    pub body: Seq<char>,
}

impl View for Response {
    type V = ResponseV;

    open spec fn view(&self) -> ResponseV {
        ResponseV { status: self.status, content_type: self.content_type@, body: self.body@ }
    }
}

/// A plain answer.
pub open spec fn plain(status: u16, body: Seq<char>) -> ResponseV {
    ResponseV { status, content_type: "text/plain"@, body }
}

/// A plain answer.
fn plain_response(status: u16, body: &str) -> (r: Response)
    ensures
        r@ == plain(status, body@),
{
    Response { status, content_type: "text/plain", body: body.to_owned() }
}

/// The name of the first agent whose loop has ended, if any.
pub open spec fn dead_agent(agents: Seq<(&'static str, bool)>) -> Option<Seq<char>>
    decreases agents.len(),
{
    if agents.len() == 0 {
        None
    } else {
        match dead_agent(agents.drop_last()) {
            Some(name) => Some(name),
            None => if agents.last().1 {
                Some(agents.last().0@)
            } else {
                None
            },
        }
    }
}

/// The first agent whose loop has ended, if any.
pub fn first_dead_agent(s: &ObsSources) -> (r: Option<&'static str>)
    ensures
        match r {
            Some(name) => dead_agent(s.agents@) == Some(name@),
            None => dead_agent(s.agents@) is None,
        },
{
    let mut found: Option<&'static str> = None;
    assert(s.agents@.take(0) =~= Seq::empty());
    for i in 0..s.agents.len()
        invariant
            match found {
                Some(name) => dead_agent(s.agents@.take(i as int)) == Some(name@),
                None => dead_agent(s.agents@.take(i as int)) is None,
            },
    {
        assert(s.agents@.take(i as int + 1).drop_last() =~= s.agents@.take(i as int));
        if found.is_none() && s.agents[i].1 {
            found = Some(s.agents[i].0);
        }
    }
    assert(s.agents@.take(s.agents@.len() as int) =~= s.agents@);
    found
}

/// What is said of an agent whose loop has ended.
pub open spec fn failstop_text(agent: Seq<char>) -> Seq<char> {
    "agent "@ + agent + " fail-stopped\n"@
}

/// The answer that names a dead agent.
fn failstop_response(agent: &str) -> (r: Response)
    ensures
        r@ == plain(503, failstop_text(agent@)),
{
    let mut body = "agent ".to_owned();
    body.append(agent);
    body.append(" fail-stopped\n");
    Response { status: 503, content_type: "text/plain", body }
}

/// Whether a heartbeat counts as stopped.
pub open spec fn stale(now_ns: u64, stamped_ns: u64) -> bool {
    metrics::lag(now_ns, stamped_ns) >= HEARTBEAT_STALE_NS
}

/// The answer about liveness.
pub open spec fn health(s: ObsSources, now_ns: u64) -> ResponseV {
    match dead_agent(s.agents@) {
        Some(name) => plain(503, failstop_text(name)),
        None => if stale(now_ns, s.status.node_heartbeat_ns) {
            plain(503, "node heartbeat stale\n"@)
        } else {
            plain(200, "ok\n"@)
        },
    }
}

/// Liveness: do the agents run, and does the node stamp its heartbeat?
pub fn healthz(s: &ObsSources, now_ns: u64) -> (r: Response)
    ensures
        r@ == health(*s, now_ns),
{
    match first_dead_agent(s) {
        Some(name) => {
            return failstop_response(name);
        },
        None => {},
    }
    if heartbeat_age_ns(now_ns, s.status.node_heartbeat_ns) >= HEARTBEAT_STALE_NS {
        return plain_response(503, "node heartbeat stale\n");
    }
    plain_response(200, "ok\n")
}

/// What a ready node says.
pub open spec fn ready_text(leader: bool, can_serve: bool) -> Seq<char> {
    "ok role="@ + (if leader {
        "leader"@
    } else {
        "follower"@
    }) + " can_serve="@ + text::bool_text(can_serve) + "\n"@
}

/// The answer about readiness.
pub open spec fn readiness(s: ObsSources, now_ns: u64) -> ResponseV {
    match dead_agent(s.agents@) {
        Some(name) => plain(503, failstop_text(name)),
        None => if s.status.leader && !s.status.can_serve {
            plain(503, "elected, NewTerm not yet quorum-committed\n"@)
        } else if stale(now_ns, s.status.node_heartbeat_ns) {
            plain(503, "node heartbeat stale\n"@)
        } else if stale(now_ns, s.status.service_heartbeat_ns) {
            plain(503, "service heartbeat stale\n"@)
        } else {
            plain(200, ready_text(s.status.leader, s.status.can_serve))
        },
    }
}

/// Readiness, which depends on the role: a leader that does not serve yet is
/// not ready.
pub fn readyz(s: &ObsSources, now_ns: u64) -> (r: Response)
    ensures
        r@ == readiness(*s, now_ns),
{
    match first_dead_agent(s) {
        Some(name) => {
            return failstop_response(name);
        },
        None => {},
    }
    if s.status.leader && !s.status.can_serve {
        return plain_response(503, "elected, NewTerm not yet quorum-committed\n");
    }
    if heartbeat_age_ns(now_ns, s.status.node_heartbeat_ns) >= HEARTBEAT_STALE_NS {
        return plain_response(503, "node heartbeat stale\n");
    }
    if heartbeat_age_ns(now_ns, s.status.service_heartbeat_ns) >= HEARTBEAT_STALE_NS {
        return plain_response(503, "service heartbeat stale\n");
    }
    let mut body = "ok role=".to_owned();
    if s.status.leader {
        body.append("leader");
    } else {
        body.append("follower");
    }
    body.append(" can_serve=");
    body.append(bool_str(s.status.can_serve));
    body.append("\n");
    Response { status: 200, content_type: "text/plain", body }
}

/// The answer to a request for `path` by `method`.
pub open spec fn answer(
    method: Seq<char>,
    path: Seq<char>,
    s: ObsSources,
    now_ns: u64,
) -> ResponseV {
    if method == "GET"@ && path == "/metrics"@ {
        ResponseV {
            status: 200,
            content_type: "text/plain; version=0.0.4"@,
            body: metrics::families_text(metrics::all_families(s)),
        }
    } else if method == "GET"@ && path == "/healthz"@ {
        health(s, now_ns)
    } else if method == "GET"@ && path == "/readyz"@ {
        readiness(s, now_ns)
    } else {
        plain(404, "not found\n"@)
    }
}

/// Answer a request for `path` by `method`.
pub fn answer_target(method: &str, path: &str, s: &ObsSources, now_ns: u64) -> (r: Response)
    requires
        ingress::total(s.receiver.net_drops@) <= u64::MAX,
    ensures
        r@ == answer(method@, path@, *s, now_ns),
{
    proof {
        reveal_strlit("/metrics");
        reveal_strlit("/healthz");
        reveal_strlit("/readyz");
        assert("/metrics"@[1] == 'm');
        assert("/healthz"@[1] == 'h');
        assert("/readyz"@[1] == 'r');
    }
    if same_text(method, "GET") {
        if same_text(path, "/metrics") {
            return Response {
                status: 200,
                content_type: "text/plain; version=0.0.4",
                body: render_prometheus(s),
            };
        }
        if same_text(path, "/healthz") {
            return healthz(s, now_ns);
        }
        if same_text(path, "/readyz") {
            return readyz(s, now_ns);
        }
    }
    plain_response(404, "not found\n")
}

/// The text that a request's bytes are read as: none of it where they are
/// not text.
pub open spec fn request_text(buf: Seq<u8>) -> Seq<char> {
    if vstd::utf8::valid_utf8(buf) {
        vstd::utf8::decode_utf8(buf)
    } else {
        Seq::empty()
    }
}

/// Answer the request in `buf`, going by its first line alone. Whatever is
/// no `GET` of a known path is not found.
pub fn route(buf: &Vec<u8>, s: &ObsSources, now_ns: u64) -> (r: Response)
    requires
        ingress::total(s.receiver.net_drops@) <= u64::MAX,
    ensures
        ({
            let line = text::first_line(request_text(buf@));
            r@ == answer(method_of(line), path_of(line), *s, now_ns)
        }),
{
    let text = match decoded(buf) {
        Some(t) => t,
        None => String::new(),
    };
    assert(text@ =~= request_text(buf@));
    let (method, path) = request_target(text.as_str());
    answer_target(method.as_str(), path.as_str(), s, now_ns)
}

/// The phrase of a status code.
pub open spec fn status_phrase(status: u16) -> Seq<char> {
    if status == 200 {
        "OK"@
    } else if status == 404 {
        "Not Found"@
    } else if status == 503 {
        "Service Unavailable"@
    } else {
        ""@
    }
}

/// An answer's head: its length in bytes, and that the connection closes.
pub open spec fn head_text(r: ResponseV) -> Seq<char> {
    "HTTP/1.1 "@ + text::digits(r.status as nat) + " "@ + status_phrase(r.status)
        + "\r\nContent-Type: "@ + r.content_type + "\r\nContent-Length: "@ + text::digits(
        vstd::utf8::encode_utf8(r.body).len(),
    ) + "\r\nConnection: close\r\n\r\n"@
}

/// An answer's head.
pub fn response_head(r: &Response) -> (head: String)
    requires
        vstd::utf8::encode_utf8(r.body@).len() <= usize::MAX,
    ensures
        head@ == head_text(r@),
{
    let mut head = "HTTP/1.1 ".to_owned();
    push_decimal(&mut head, r.status as u128);
    head.append(" ");
    head.append(
        match r.status {
            200 => "OK",
            404 => "Not Found",
            503 => "Service Unavailable",
            _ => "",
        },
    );
    head.append("\r\nContent-Type: ");
    head.append(r.content_type);
    head.append("\r\nContent-Length: ");
    let n: usize = r.body.as_str().len();
    push_decimal(&mut head, n as u128);
    head.append("\r\nConnection: close\r\n\r\n");
    assert(head@ =~= head_text(r@));
    head
}

/// However a peer paces its bytes, no read lasts beyond the connection's
/// deadline, none starts at or after it, and none starts once enough was
/// read. Without the header's end, the end of the stream or a full buffer
/// nothing is answered: at the deadline such a connection is dropped.
pub proof fn law_reads_end_by_the_deadline(r: RequestReader, elapsed_ns: u64)
    requires
        r.wf(),
    ensures
        r.due(elapsed_ns) matches ConnStep::Read { timeout_ns } ==> {
            &&& 0 < timeout_ns <= READ_TIMEOUT_NS
            &&& elapsed_ns + timeout_ns <= CONN_DEADLINE_NS
            &&& r.buf@.len() < REQUEST_CAP
        },
        elapsed_ns >= CONN_DEADLINE_NS ==> !(r.due(elapsed_ns) is Read),
        !ends(r.buf@) && !r.closed && r.buf@.len() < REQUEST_CAP ==> {
            &&& !(r.due(elapsed_ns) is Answer)
            &&& elapsed_ns >= CONN_DEADLINE_NS ==> r.due(elapsed_ns) is Drop
        },
{
}

/// An elected leader that does not serve yet is alive and not ready.
pub proof fn law_elected_is_not_ready(s: ObsSources, now_ns: u64)
    requires
        s.status.leader,
        !s.status.can_serve,
    ensures
        readiness(s, now_ns).status == 503,
        dead_agent(s.agents@) is None && !stale(now_ns, s.status.node_heartbeat_ns) ==> health(
            s,
            now_ns,
        ).status == 200,
{
}

/// What is ready is alive.
pub proof fn law_ready_is_alive(s: ObsSources, now_ns: u64)
    requires
        readiness(s, now_ns).status == 200,
    ensures
        health(s, now_ns).status == 200,
{
}

/// A node with a dead agent is neither alive nor ready.
pub proof fn law_dead_agent_fails_both(s: ObsSources, now_ns: u64)
    requires
        exists|i: int| 0 <= i < s.agents@.len() && (#[trigger] s.agents@[i]).1,
    ensures
        health(s, now_ns).status == 503,
        readiness(s, now_ns).status == 503,
{
    let i = choose|i: int| 0 <= i < s.agents@.len() && (#[trigger] s.agents@[i]).1;
    lemma_dead_agent_found(s.agents@, i);
}

proof fn lemma_dead_agent_found(agents: Seq<(&'static str, bool)>, i: int)
    requires
        0 <= i < agents.len(),
        agents[i].1,
    ensures
        dead_agent(agents) is Some,
    decreases agents.len(),
{
    if i < agents.len() - 1 {
        lemma_dead_agent_found(agents.drop_last(), i);
    }
}

/// Bytes with an empty line between them.
pub open spec fn around_empty_line(a: Seq<u8>, b: Seq<u8>) -> Seq<u8> {
    a + seq![13u8, 10u8, 13u8, 10u8] + b
}

/// The header's end is an empty line, wherever it stands.
pub proof fn law_header_ends_with_an_empty_line(a: Seq<u8>, b: Seq<u8>)
    ensures
        ends(a + seq![13u8, 10u8, 13u8, 10u8] + b),
        ends(a) ==> exists|x: Seq<u8>, y: Seq<u8>| a == #[trigger] around_empty_line(x, y),
        ends(a) ==> ends(a + b),
{
    let all = a + seq![13u8, 10u8, 13u8, 10u8] + b;
    let n = a.len() as int;
    assert(all[n] == 13 && all[n + 1] == 10 && all[n + 2] == 13 && all[n + 3] == 10);
    if ends(a) {
        let i = choose|i: int|
            0 <= i && i + 4 <= a.len() && #[trigger] a[i] == 13 && a[i + 1] == 10 && a[i + 2] == 13
                && a[i + 3] == 10;
        let x = a.take(i);
        let y = a.skip(i + 4);
        assert(a =~= around_empty_line(x, y));
        assert((a + b)[i] == 13 && (a + b)[i + 1] == 10 && (a + b)[i + 2] == 13 && (a + b)[i + 3]
            == 10);
    }
}

/// A request is answered exactly where its header has ended, the peer has
/// stopped sending, or 4096 bytes were read. Until then it is read on, a
/// second at a time and never past the second second; and then it is dropped.
pub proof fn law_connection_steps_in_time(r: RequestReader, elapsed_ns: u64)
    ensures
        ({
            let enough = r.closed || r.terminated || r.buf@.len() >= 4096;
            &&& r.due(elapsed_ns) is Answer <==> enough
            &&& r.due(elapsed_ns) is Drop <==> !enough && elapsed_ns >= 2_000_000_000
            &&& !enough && elapsed_ns <= 1_000_000_000 ==> r.due(elapsed_ns) == (ConnStep::Read {
                timeout_ns: 1_000_000_000,
            })
            &&& !enough && 1_000_000_000 <= elapsed_ns < 2_000_000_000 ==> r.due(elapsed_ns) == (
            ConnStep::Read { timeout_ns: (2_000_000_000 - elapsed_ns) as u64 })
        }),
{
}

/// Spaces, tabs and line ends separate words; no printable ASCII character
/// does.
pub proof fn law_white_space_separates(c: char)
    ensures
        is_white(' ') && is_white('\t') && is_white('\n') && is_white('\r'),
        0x21 <= c as int <= 0x7E ==> !is_white(c),
{
}

/// Whether a text is a word: not empty, and without white space.
pub open spec fn is_word(s: Seq<char>) -> bool {
    s.len() > 0 && forall|i: int| 0 <= i < s.len() ==> !is_white(#[trigger] s[i])
}

proof fn lemma_word_is_read(w: Seq<char>, rest: Seq<char>)
    requires
        forall|i: int| 0 <= i < w.len() ==> !is_white(#[trigger] w[i]),
        rest.len() == 0 || is_white(rest[0]),
    ensures
        word(w + rest) == w,
        w.len() > 0 ==> after_white(w + rest) == w + rest,
    decreases w.len(),
{
    let s = w + rest;
    if w.len() > 0 {
        assert(!is_white(w[0]));
        assert(s[0] == w[0]);
        assert(s.skip(1) =~= w.skip(1) + rest);
        assert forall|i: int| 0 <= i < w.skip(1).len() implies !is_white(#[trigger] w.skip(1)[i]) by {
            assert(!is_white(w[i + 1]));
        }
        lemma_word_is_read(w.skip(1), rest);
        assert(seq![w[0]] + w.skip(1) =~= w);
    } else {
        assert(s =~= rest);
        assert(word(s) =~= w);
    }
}

/// The first word of a request line is the method and the second the path; a
/// query behind the path is no part of it, and neither is what follows.
pub proof fn law_request_line_is_read_by_words(
    method: Seq<char>,
    path: Seq<char>,
    query: Seq<char>,
    rest: Seq<char>,
)
    requires
        is_word(method),
        is_word(path),
        !path.contains('?'),
        forall|i: int| 0 <= i < query.len() ==> !is_white(#[trigger] query[i]),
    ensures
        method_of(method + seq![' '] + path + seq![' '] + rest) == method,
        path_of(method + seq![' '] + path + seq![' '] + rest) == path,
        path_of(method + seq![' '] + path + seq!['?'] + query + seq![' '] + rest) == path,
{
    let tail = seq![' '] + rest;
    let line = method + seq![' '] + path + seq![' '] + rest;
    let after = seq![' '] + (path + tail);
    assert(line =~= method + after);
    lemma_word_is_read(method, after);
    assert(line.skip(method.len() as int) =~= after);
    assert(after.skip(1) =~= path + tail);
    assert(is_white(after[0]));
    lemma_word_is_read(path, tail);
    assert(after_white(after) == after_white(after.skip(1)));
    text::law_text_without_a_character(path, '?');
    let target = path + seq!['?'] + query;
    let asked = method + seq![' '] + path + seq!['?'] + query + seq![' '] + rest;
    let behind = seq![' '] + (target + tail);
    assert(asked =~= method + behind);
    lemma_word_is_read(method, behind);
    assert(asked.skip(method.len() as int) =~= behind);
    assert(behind.skip(1) =~= target + tail);
    assert(is_white(behind[0]));
    assert forall|i: int| 0 <= i < target.len() implies !is_white(#[trigger] target[i]) by {
        if i < path.len() {
            assert(!is_white(path[i]));
        } else if i > path.len() {
            assert(!is_white(query[i - path.len() - 1]));
        }
    }
    lemma_word_is_read(target, tail);
    assert(after_white(behind) == after_white(behind.skip(1)));
    text::law_text_up_to_a_character(path, query, '?');
}

/// The agent that is named has ended, and none before it has; none is named
/// exactly where all run.
pub proof fn law_first_dead_agent_is_named(agents: Seq<(&'static str, bool)>)
    ensures
        dead_agent(agents) is None <==> forall|i: int|
            0 <= i < agents.len() ==> !(#[trigger] agents[i]).1,
        dead_agent(agents) matches Some(name) ==> exists|k: int|
            0 <= k < agents.len() && (#[trigger] agents[k]).1 && agents[k].0@ == name && forall|
                j: int,
            |
                0 <= j < k ==> !(#[trigger] agents[j]).1,
    decreases agents.len(),
{
    if agents.len() > 0 {
        let head = agents.drop_last();
        law_first_dead_agent_is_named(head);
        assert(forall|i: int| 0 <= i < head.len() ==> head[i] == agents[i]);
        assert(agents[agents.len() - 1] == agents.last());
        if dead_agent(head) is Some {
            let name = dead_agent(head)->0;
            let k = choose|k: int|
                0 <= k < head.len() && (#[trigger] head[k]).1 && head[k].0@ == name && forall|
                    j: int,
                |
                    0 <= j < k ==> !(#[trigger] head[j]).1;
            assert(agents[k].1 && agents[k].0@ == name);
            assert forall|j: int| 0 <= j < k implies !(#[trigger] agents[j]).1 by {
                assert(!head[j].1);
            }
        }
    }
}

/// A heartbeat counts as stopped three seconds after its stamp.
pub proof fn law_heartbeats_stop_after_three_seconds(now_ns: u64, stamped_ns: u64)
    ensures
        stale(now_ns, stamped_ns) <==> now_ns >= stamped_ns + 3_000_000_000,
{
}

/// A node is alive exactly while all its agents run and its heartbeat is
/// fresh; it is ready exactly where it is also no leader that does not serve
/// yet, and the service's heartbeat is fresh too. Everything else is answered
/// as unavailable.
pub proof fn law_probes_answer_as_the_node_stands(s: ObsSources, now_ns: u64)
    ensures
        ({
            let run = forall|i: int| 0 <= i < s.agents@.len() ==> !(#[trigger] s.agents@[i]).1;
            let beats = now_ns < s.status.node_heartbeat_ns + 3_000_000_000;
            let served = now_ns < s.status.service_heartbeat_ns + 3_000_000_000;
            let opening = s.status.leader && !s.status.can_serve;
            &&& health(s, now_ns).status == 200 <==> run && beats
            &&& health(s, now_ns).status == 200 || health(s, now_ns).status == 503
            &&& readiness(s, now_ns).status == 200 <==> run && beats && served && !opening
            &&& readiness(s, now_ns).status == 200 || readiness(s, now_ns).status == 503
            &&& readiness(s, now_ns).status == 200 ==> readiness(s, now_ns).body == ready_text(
                s.status.leader,
                s.status.can_serve,
            )
        }),
{
    law_first_dead_agent_is_named(s.agents@);
}

/// A ready node says its role and whether it serves.
pub proof fn law_ready_answer_says_the_role(leader: bool, can_serve: bool)
    ensures
        ready_text(leader, can_serve) == "ok role="@ + (if leader {
            "leader"@
        } else {
            "follower"@
        }) + " can_serve="@ + (if can_serve {
            "true"@
        } else {
            "false"@
        }) + "\n"@,
{
}

/// Only a `GET` of one of three paths is answered with what it asks for:
/// metrics, liveness, readiness. Whatever else is asked is not found.
pub proof fn law_three_paths_are_answered(
    method: Seq<char>,
    path: Seq<char>,
    s: ObsSources,
    now_ns: u64,
)
    ensures
        answer("GET"@, "/healthz"@, s, now_ns) == health(s, now_ns),
        answer("GET"@, "/readyz"@, s, now_ns) == readiness(s, now_ns),
        answer("GET"@, "/metrics"@, s, now_ns).status == 200,
        answer("GET"@, "/metrics"@, s, now_ns).body == metrics::families_text(
            metrics::all_families(s),
        ),
        method != "GET"@ || (path != "/metrics"@ && path != "/healthz"@ && path != "/readyz"@)
            ==> answer(method, path, s, now_ns).status == 404,
{
    reveal_strlit("/metrics");
    reveal_strlit("/healthz");
    reveal_strlit("/readyz");
    assert("/metrics"@[1] == 'm');
    assert("/healthz"@[1] == 'h');
    assert("/readyz"@[1] == 'r');
}

/// The head of an answer has its status and phrase, its type and the length
/// of its body in bytes, and ends with the empty line.
pub proof fn law_head_announces_the_body(r: ResponseV)
    ensures
        ({
            let h = head_text(r);
            &&& crate::audit::tells(h, "HTTP/1.1 "@ + text::digits(r.status as nat))
            &&& crate::audit::tells(h, "Content-Type: "@ + r.content_type)
            &&& crate::audit::tells(
                h,
                "Content-Length: "@ + text::digits(vstd::utf8::encode_utf8(r.body).len()),
            )
            &&& h.skip(h.len() - 4) == seq!['\r', '\n', '\r', '\n']
        }),
        status_phrase(200) == "OK"@,
        status_phrase(404) == "Not Found"@,
        status_phrase(503) == "Service Unavailable"@,
{
    let h = head_text(r);
    let e = Seq::<char>::empty();
    reveal_strlit("\r\nContent-Type: ");
    reveal_strlit("Content-Type: ");
    reveal_strlit("\r\nContent-Length: ");
    reveal_strlit("Content-Length: ");
    reveal_strlit("\r\n");
    reveal_strlit("\r\nConnection: close\r\n\r\n");
    let n = text::digits(vstd::utf8::encode_utf8(r.body).len());
    let a = "HTTP/1.1 "@ + text::digits(r.status as nat);
    let b = " "@ + status_phrase(r.status);
    let nl = "\r\n"@;
    let t = "Content-Type: "@ + r.content_type;
    let l = "Content-Length: "@ + n;
    let z = "\r\nConnection: close\r\n\r\n"@;
    assert("\r\nContent-Type: "@ =~= nl + "Content-Type: "@);
    assert("\r\nContent-Length: "@ =~= nl + "Content-Length: "@);
    crate::audit::lemma_told(h, e, a, b + nl + t + nl + l + z);
    crate::audit::lemma_told(h, a + b + nl, t, nl + l + z);
    crate::audit::lemma_told(h, a + b + nl + t + nl, l, z);
    assert(z.skip(z.len() - 4) =~= seq!['\r', '\n', '\r', '\n']);
    assert(h.skip(h.len() - 4) =~= z.skip(z.len() - 4));
}

/// A request that is not text is read as an empty one, and any other as the
/// text that it is.
pub proof fn law_requests_are_read_as_text(buf: Seq<u8>)
    ensures
        vstd::utf8::valid_utf8(buf) ==> request_text(buf) == vstd::utf8::decode_utf8(buf),
        !vstd::utf8::valid_utf8(buf) ==> request_text(buf).len() == 0,
{
}

/// What a probe says in words: that all is well, which agent has ended, whose
/// heartbeat stopped, or that the term is not open yet.
pub proof fn law_probes_say_what_is_wrong(s: ObsSources, now_ns: u64, i: int)
    ensures
        health(s, now_ns).content_type == "text/plain"@,
        readiness(s, now_ns).content_type == "text/plain"@,
        health(s, now_ns).status == 200 ==> health(s, now_ns).body == "ok\n"@,
        dead_agent(s.agents@) matches Some(name) ==> health(s, now_ns).body == "agent "@ + name
            + " fail-stopped\n"@ && readiness(s, now_ns).body == health(s, now_ns).body,
        dead_agent(s.agents@) is None && health(s, now_ns).status == 503 ==> health(s, now_ns).body
            == "node heartbeat stale\n"@,
        dead_agent(s.agents@) is None && s.status.leader && !s.status.can_serve ==> readiness(
            s,
            now_ns,
        ).body == "elected, NewTerm not yet quorum-committed\n"@,
{
}

} // verus!
