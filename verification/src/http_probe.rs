//! An HTTP request sent through a SOCKS5 proxy: what to send, how much to read
//! and what to make of it.
use crate::outside::{from_utf8_lossy, lossy_text};
use crate::text::{decimal, decimal_text, hex_byte, hex_byte_text};
use crate::wire::{be_u16, push_all, push_be_u16, text_bytes};
use vstd::prelude::*;
use vstd::string::StringExecFns;

verus! {

/// Why an HTTP probe failed.
#[derive(Debug)]
pub enum HttpProbeError {
    /// The proxy did not agree to go without authentication: its two bytes.
    MethodRefused(u8, u8),
    /// The proxy did not connect: its reply code.
    ConnectRefused(u8),
    /// The proxy's reply holds an address of an unknown kind.
    BadAddressType,
    /// The connection ended before an answer.
    NoResponse,
    /// The answer does not begin as a success or a redirection: its first line.
    BadStatusLine(Vec<u8>),
}

/// What the probe waits for.
#[derive(Clone, Copy, Debug, PartialEq, Eq, Structural)]
pub enum HttpProbePhase {
    /// The proxy's choice of a method, two bytes.
    Method,
    /// The head of the reply to the connect request, four bytes.
    ConnectHead,
    /// The length of the domain name in that reply, one byte.
    DomainLen,
    /// The rest of that reply.
    BoundAddress(usize),
    /// The beginning of the HTTP answer.
    Answer,
    /// Nothing more.
    Finished,
}

/// What to do next.
#[derive(Debug)]
pub enum HttpProbeAction {
    /// Send these bytes (there may be none), then read exactly so many.
    Exchange(Vec<u8>, usize),
    /// Send these bytes, then read what comes, at most so many bytes.
    SendAndReadSome(Vec<u8>, usize),
    /// The probe is over.
    Finish(Result<(), HttpProbeError>),
}

/// How the failure of a probe is told; of a first line, how its text is.
pub open spec fn http_fault_chars(fault: HttpFault, line: Seq<char>) -> Seq<char> {
    match fault {
        HttpFault::MethodRefused(a, b) => "TCP 健康探测: SOCKS5 无认证协商失败: ["@ + decimal(
            a as nat,
        ) + ", "@ + decimal(b as nat) + "]"@,
        HttpFault::ConnectRefused(code) => "TCP 健康探测: SOCKS5 CONNECT 失败: REP=0x"@
            + hex_byte(code),
        HttpFault::BadAddressType => "TCP 健康探测: 非法 ATYP"@,
        HttpFault::NoResponse => "TCP 健康探测: 无响应体"@,
        HttpFault::BadStatusLine(_) => "TCP 健康探测: HTTP 首行异常: "@ + line,
    }
}

/// The bytes of the first line that a failure holds.
pub open spec fn fault_line(fault: HttpFault) -> Seq<u8> {
    match fault {
        HttpFault::BadStatusLine(line) => line,
        _ => Seq::empty(),
    }
}

/// Tells the failure of a probe; `line` is the text of the first line it holds.
pub fn http_error_text_with_line(e: &HttpProbeError, line: &str) -> (r: String)
    ensures
        r@ == http_fault_chars(e@, line@),
{
    match e {
        HttpProbeError::MethodRefused(a, b) => {
            let mut r = "TCP 健康探测: SOCKS5 无认证协商失败: [".to_owned();
            r.append(decimal_text(*a as u64).as_str());
            r.append(", ");
            r.append(decimal_text(*b as u64).as_str());
            r.append("]");
            r
        },
        HttpProbeError::ConnectRefused(code) => "TCP 健康探测: SOCKS5 CONNECT 失败: REP=0x".to_owned(
        ).concat(hex_byte_text(*code).as_str()),
        HttpProbeError::BadAddressType => "TCP 健康探测: 非法 ATYP".to_owned(),
        HttpProbeError::NoResponse => "TCP 健康探测: 无响应体".to_owned(),
        HttpProbeError::BadStatusLine(_) => "TCP 健康探测: HTTP 首行异常: ".to_owned().concat(
            line,
        ),
    }
}

/// Tells the failure of a probe.
pub fn http_error_text(e: &HttpProbeError) -> (r: String)
    ensures
        r@ == http_fault_chars(e@, lossy_text(fault_line(e@))),
{
    match e {
        HttpProbeError::BadStatusLine(line) => {
            let text = from_utf8_lossy(line.as_slice());
            http_error_text_with_line(e, text.as_str())
        },
        _ => http_error_text_with_line(e, ""),
    }
}

/// A probe of one host.
#[derive(Debug)]
pub struct HttpProbe {
    host: String,
    phase: HttpProbePhase,
}

/// The reason of a failure, over plain sequences.
pub enum HttpFault {
    MethodRefused(u8, u8),
    ConnectRefused(u8),
    BadAddressType,
    NoResponse,
    BadStatusLine(Seq<u8>),
}

/// An action, over plain sequences.
pub enum HttpStep {
    Exchange(Seq<u8>, nat),
    SendAndReadSome(Seq<u8>, nat),
    Succeed,
    Fail(HttpFault),
}

impl View for HttpProbeError {
    type V = HttpFault;

    open spec fn view(&self) -> HttpFault {
        match *self {
            HttpProbeError::MethodRefused(a, b) => HttpFault::MethodRefused(a, b),
            HttpProbeError::ConnectRefused(c) => HttpFault::ConnectRefused(c),
            HttpProbeError::BadAddressType => HttpFault::BadAddressType,
            HttpProbeError::NoResponse => HttpFault::NoResponse,
            HttpProbeError::BadStatusLine(l) => HttpFault::BadStatusLine(l@),
        }
    }
}

impl View for HttpProbeAction {
    type V = HttpStep;

    open spec fn view(&self) -> HttpStep {
        match *self {
            HttpProbeAction::Exchange(b, n) => HttpStep::Exchange(b@, n as nat),
            HttpProbeAction::SendAndReadSome(b, n) => HttpStep::SendAndReadSome(b@, n as nat),
            HttpProbeAction::Finish(Ok(())) => HttpStep::Succeed,
            HttpProbeAction::Finish(Err(e)) => HttpStep::Fail(e@),
        }
    }
}

/// How much of an answer is looked at.
pub const ANSWER_LEN: usize = 256;

/// The offer to a SOCKS5 proxy to go without authentication.
pub open spec fn socks5_greeting() -> Seq<u8> {
    seq![5u8, 1u8, 0u8]
}

/// The request to a SOCKS5 proxy to connect to port 80 of a host by name. The
/// length of the name is written in one byte.
pub open spec fn socks5_connect(host: Seq<u8>) -> Seq<u8> {
    seq![5u8, 1u8, 0u8, 3u8, (host.len() % 256) as u8] + host + be_u16(80)
}

/// The HTTP request, around the name of the host.
pub open spec fn http_request(host: Seq<char>) -> Seq<char> {
    "GET / HTTP/1.1\r\nHost: "@ + host
        + "\r\nUser-Agent: rathole-health\r\nConnection: close\r\n\r\n"@
}

/// `HTTP/1.`, a minor version, a space and the first digit of a status.
pub open spec fn status_prefix(minor: u8, class: u8) -> Seq<u8> {
    seq![72u8, 84u8, 84u8, 80u8, 47u8, 49u8, 46u8, minor, 32u8, class]
}

/// Whether an answer begins as a success or a redirection, in either version.
pub open spec fn good_status(answer: Seq<u8>) -> bool {
    exists|minor: u8, class: u8|
        (minor == 48 || minor == 49) && (class == 50 || class == 51)
            && #[trigger] status_prefix(minor, class).is_prefix_of(answer)
}

/// The bytes before the first line feed.
pub open spec fn before_line_feed(answer: Seq<u8>) -> Seq<u8>
    decreases answer.len(),
{
    if answer.len() == 0 || answer[0] == 10 {
        Seq::empty()
    } else {
        seq![answer[0]] + before_line_feed(answer.drop_first())
    }
}

/// The first line of an answer, without what ends it.
pub open spec fn first_line(answer: Seq<u8>) -> Seq<u8> {
    let line = before_line_feed(answer);
    if line.len() < answer.len() && line.len() > 0 && line.last() == 13 {
        line.drop_last()
    } else {
        line
    }
}

/// Whether `reply` is as long as the phase asked for.
pub open spec fn reply_fits(phase: HttpProbePhase, reply: Seq<u8>) -> bool {
    match phase {
        HttpProbePhase::Method => reply.len() == 2,
        HttpProbePhase::ConnectHead => reply.len() == 4,
        HttpProbePhase::DomainLen => reply.len() == 1,
        HttpProbePhase::BoundAddress(n) => reply.len() == n,
        HttpProbePhase::Answer => reply.len() <= ANSWER_LEN,
        HttpProbePhase::Finished => false,
    }
}

/// What follows a reply.
pub open spec fn after_reply(phase: HttpProbePhase, host: Seq<char>, reply: Seq<u8>) -> (
    HttpProbePhase,
    HttpStep,
) {
    match phase {
        HttpProbePhase::Method => if reply == seq![5u8, 0u8] {
            (
                HttpProbePhase::ConnectHead,
                HttpStep::Exchange(socks5_connect(text_bytes(host)), 4),
            )
        } else {
            (
                HttpProbePhase::Finished,
                HttpStep::Fail(HttpFault::MethodRefused(reply[0], reply[1])),
            )
        },
        HttpProbePhase::ConnectHead => if reply[1] != 0 {
            (HttpProbePhase::Finished, HttpStep::Fail(HttpFault::ConnectRefused(reply[1])))
        } else if reply[3] == 1 {
            (HttpProbePhase::BoundAddress(6), HttpStep::Exchange(Seq::empty(), 6))
        } else if reply[3] == 4 {
            (HttpProbePhase::BoundAddress(18), HttpStep::Exchange(Seq::empty(), 18))
        } else if reply[3] == 3 {
            (HttpProbePhase::DomainLen, HttpStep::Exchange(Seq::empty(), 1))
        } else {
            (HttpProbePhase::Finished, HttpStep::Fail(HttpFault::BadAddressType))
        },
        HttpProbePhase::DomainLen => (
            HttpProbePhase::BoundAddress((reply[0] + 2) as usize),
            HttpStep::Exchange(Seq::empty(), (reply[0] + 2) as nat),
        ),
        HttpProbePhase::BoundAddress(_) => (
            HttpProbePhase::Answer,
            HttpStep::SendAndReadSome(text_bytes(http_request(host)), ANSWER_LEN as nat),
        ),
        _ => (
            HttpProbePhase::Finished,
            if reply.len() == 0 {
                HttpStep::Fail(HttpFault::NoResponse)
            } else if good_status(reply) {
                HttpStep::Succeed
            } else {
                HttpStep::Fail(HttpFault::BadStatusLine(first_line(reply)))
            },
        ),
    }
}

/// Writes the connect request.
pub fn build_socks5_connect(host: &str) -> (r: Vec<u8>)
    ensures
        r@ == socks5_connect(text_bytes(host@)),
{
    let name = host.as_bytes();
    let mut v: Vec<u8> = Vec::new();
    v.push(5);
    v.push(1);
    v.push(0);
    v.push(3);
    let size: usize = name.len() % 256;
    v.push(size as u8);
    push_all(&mut v, name);
    push_be_u16(&mut v, 80);
    assert(v@ =~= socks5_connect(name@));
    v
}

/// Writes the HTTP request.
pub fn build_http_request(host: &str) -> (r: Vec<u8>)
    ensures
        r@ == text_bytes(http_request(host@)),
{
    let head: String = "GET / HTTP/1.1\r\nHost: ".to_owned();
    let text: String = head.concat(host).concat(
        "\r\nUser-Agent: rathole-health\r\nConnection: close\r\n\r\n",
    );
    let mut v: Vec<u8> = Vec::new();
    push_all(&mut v, text.as_str().as_bytes());
    assert(v@ =~= text_bytes(http_request(host@)));
    v
}

/// Whether an answer begins as a success or a redirection.
pub fn is_good_status(answer: &[u8]) -> (r: bool)
    ensures
        r == good_status(answer@),
{
    if answer.len() < 10 {
        assert(!good_status(answer@)) by {
            assert forall|minor: u8, class: u8|
                !(#[trigger] status_prefix(minor, class).is_prefix_of(answer@)) by {}
        }
        return false;
    }
    let fixed = answer[0] == 72 && answer[1] == 84 && answer[2] == 84 && answer[3] == 80
        && answer[4] == 47 && answer[5] == 49 && answer[6] == 46 && answer[8] == 32;
    let minor: u8 = answer[7];
    let class: u8 = answer[9];
    let r = fixed && (minor == 48 || minor == 49) && (class == 50 || class == 51);
    proof {
        if r {
            let p = status_prefix(minor, class);
            assert(p =~= answer@.subrange(0, p.len() as int));
            assert(p.is_prefix_of(answer@));
        }
        if good_status(answer@) {
            let (m, c) = choose|m: u8, c: u8|
                (m == 48 || m == 49) && (c == 50 || c == 51) && #[trigger] status_prefix(
                    m,
                    c,
                ).is_prefix_of(answer@);
            let p = status_prefix(m, c);
            assert(p =~= answer@.subrange(0, p.len() as int));
            assert forall|i: int| 0 <= i < 10 implies p[i] == answer@[i] by {
                assert(p[i] == answer@.subrange(0, 10)[i]);
            }
            assert(p[0] == 72 && p[1] == 84 && p[2] == 84 && p[3] == 80 && p[4] == 47 && p[5] == 49
                && p[6] == 46 && p[7] == m && p[8] == 32 && p[9] == c);
        }
    }
    r
}

proof fn lemma_before_line_feed(answer: Seq<u8>, k: int)
    requires
        0 <= k <= answer.len(),
        forall|i: int| 0 <= i < k ==> answer[i] != 10,
        k < answer.len() ==> answer[k] == 10,
    ensures
        before_line_feed(answer) == answer.take(k),
    decreases answer.len(),
{
    if answer.len() == 0 || answer[0] == 10 {
        assert(answer.take(k) =~= Seq::empty());
    } else {
        let rest = answer.drop_first();
        assert forall|i: int| 0 <= i < k - 1 implies rest[i] != 10 by {
            assert(rest[i] == answer[i + 1]);
        }
        lemma_before_line_feed(rest, k - 1);
        assert(answer.take(k) =~= seq![answer[0]] + rest.take(k - 1));
    }
}

/// The first line of an answer.
pub fn answer_first_line(answer: &[u8]) -> (r: Vec<u8>)
    ensures
        r@ == first_line(answer@),
{
    let mut line: Vec<u8> = Vec::new();
    let mut i: usize = 0;
    while i < answer.len() && answer[i] != 10
        invariant
            i <= answer@.len(),
            line@ == answer@.take(i as int),
            forall|j: int| 0 <= j < i ==> answer@[j] != 10,
        decreases answer@.len() - i,
    {
        line.push(answer[i]);
        assert(line@ =~= answer@.take(i + 1));
        i = i + 1;
    }
    proof {
        lemma_before_line_feed(answer@, i as int);
    }
    if i < answer.len() && line.len() > 0 && line[line.len() - 1] == 13 {
        let _ = line.pop();
        assert(line@ =~= answer@.take(i as int).drop_last());
    }
    line
}

impl HttpProbe {
    /// The host that is asked for.
    pub closed spec fn host(&self) -> Seq<char> {
        self.host@
    }

    /// What the probe waits for.
    pub closed spec fn phase(&self) -> HttpProbePhase {
        self.phase
    }

    /// Begins a probe.
    pub fn start(host: &str) -> (r: (HttpProbe, HttpProbeAction))
        ensures
            r.0.host() == host@,
            r.0.phase() == HttpProbePhase::Method,
            r.1@ == HttpStep::Exchange(socks5_greeting(), 2),
    {
        let mut greeting: Vec<u8> = Vec::new();
        greeting.push(5);
        greeting.push(1);
        greeting.push(0);
        assert(greeting@ =~= socks5_greeting());
        let probe = HttpProbe { host: host.to_owned(), phase: HttpProbePhase::Method };
        (probe, HttpProbeAction::Exchange(greeting, 2))
    }

    /// Takes what was read.
    pub fn on_reply(&mut self, reply: &[u8]) -> (r: HttpProbeAction)
        requires
            reply_fits(old(self).phase(), reply@),
        ensures
            final(self).host() == old(self).host(),
            (final(self).phase(), r@) == after_reply(
                old(self).phase(),
                old(self).host(),
                reply@,
            ),
    {
        match self.phase {
            HttpProbePhase::Method => {
                if reply[0] == 5 && reply[1] == 0 {
                    assert(reply@ =~= seq![5u8, 0u8]);
                    self.phase = HttpProbePhase::ConnectHead;
                    HttpProbeAction::Exchange(build_socks5_connect(self.host.as_str()), 4)
                } else {
                    assert(reply@ != seq![5u8, 0u8]) by {
                        assert(seq![5u8, 0u8][0] == 5 && seq![5u8, 0u8][1] == 0);
                    }
                    self.phase = HttpProbePhase::Finished;
                    HttpProbeAction::Finish(Err(HttpProbeError::MethodRefused(reply[0], reply[1])))
                }
            },
            HttpProbePhase::ConnectHead => {
                if reply[1] != 0 {
                    self.phase = HttpProbePhase::Finished;
                    HttpProbeAction::Finish(Err(HttpProbeError::ConnectRefused(reply[1])))
                } else if reply[3] == 1 {
                    self.phase = HttpProbePhase::BoundAddress(6);
                    HttpProbeAction::Exchange(Vec::new(), 6)
                } else if reply[3] == 4 {
                    self.phase = HttpProbePhase::BoundAddress(18);
                    HttpProbeAction::Exchange(Vec::new(), 18)
                } else if reply[3] == 3 {
                    self.phase = HttpProbePhase::DomainLen;
                    HttpProbeAction::Exchange(Vec::new(), 1)
                } else {
                    self.phase = HttpProbePhase::Finished;
                    HttpProbeAction::Finish(Err(HttpProbeError::BadAddressType))
                }
            },
            HttpProbePhase::DomainLen => {
                let rest: usize = reply[0] as usize + 2;
                self.phase = HttpProbePhase::BoundAddress(rest);
                HttpProbeAction::Exchange(Vec::new(), rest)
            },
            HttpProbePhase::BoundAddress(_) => {
                self.phase = HttpProbePhase::Answer;
                HttpProbeAction::SendAndReadSome(
                    build_http_request(self.host.as_str()),
                    ANSWER_LEN,
                )
            },
            _ => {
                self.phase = HttpProbePhase::Finished;
                if reply.len() == 0 {
                    HttpProbeAction::Finish(Err(HttpProbeError::NoResponse))
                } else if is_good_status(reply) {
                    HttpProbeAction::Finish(Ok(()))
                } else {
                    HttpProbeAction::Finish(
                        Err(HttpProbeError::BadStatusLine(answer_first_line(reply))),
                    )
                }
            },
        }
    }
}

/// The phase and the last step after a run of replies; the step that began the
/// probe, after none.
pub open spec fn probe_run(host: Seq<char>, replies: Seq<Seq<u8>>) -> (HttpProbePhase, HttpStep)
    decreases replies.len(),
{
    if replies.len() == 0 {
        (HttpProbePhase::Method, HttpStep::Exchange(socks5_greeting(), 2))
    } else {
        after_reply(probe_run(host, replies.drop_last()).0, host, replies.last())
    }
}

/// Each reply is as long as it was asked to be.
pub open spec fn replies_fit(host: Seq<char>, replies: Seq<Seq<u8>>) -> bool
    decreases replies.len(),
{
    replies.len() > 0 ==> {
        &&& replies_fit(host, replies.drop_last())
        &&& reply_fits(probe_run(host, replies.drop_last()).0, replies.last())
    }
}

/// Whether the proxy did all it was asked, in the replies of a whole probe:
/// the method, the head of the reply to the connect request, the rest of that
/// reply, and the answer.
pub open spec fn proxy_served(replies: Seq<Seq<u8>>) -> bool {
    &&& replies.len() >= 4
    &&& replies[0] == seq![5u8, 0u8]
    &&& replies[1][1] == 0
    &&& replies[1][3] == 1 || replies[1][3] == 4 || replies[1][3] == 3
    &&& replies.len() == if replies[1][3] == 3 {
        5int
    } else {
        4int
    }
    &&& good_status(replies.last())
}

/// A probe succeeds exactly when the proxy agreed to go without
/// authentication, connected, and passed on an answer that begins as a success
/// or a redirection.
pub proof fn probe_succeeds_exactly_when_served(host: Seq<char>, replies: Seq<Seq<u8>>)
    requires
        replies_fit(host, replies),
    ensures
        probe_run(host, replies).1 is Succeed <==> proxy_served(replies),
{
    lemma_run_shape(host, replies);
}

/// What the replies of an unfinished probe were, by its phase.
proof fn lemma_run_shape(host: Seq<char>, replies: Seq<Seq<u8>>)
    requires
        replies_fit(host, replies),
    ensures
        ({
            let (phase, step) = probe_run(host, replies);
            let n = replies.len();
            let greeted = n >= 1 && replies[0] == seq![5u8, 0u8];
            let connected = greeted && n >= 2 && replies[1][1] == 0;
            let short = replies[1][3] == 1 || replies[1][3] == 4;
            let long = replies[1][3] == 3;
            &&& phase is Method ==> n == 0
            &&& phase is ConnectHead ==> n == 1 && greeted
            &&& phase is DomainLen ==> n == 2 && connected && long
            &&& phase is BoundAddress ==> connected && (n == 2 && short || n == 3 && long)
            &&& phase is Answer ==> connected && (n == 3 && short || n == 4 && long)
            &&& n == 0 ==> phase is Method
            &&& n == 1 && greeted ==> phase is ConnectHead
            &&& n == 2 && connected && long ==> phase is DomainLen
            &&& n == 2 && connected && short ==> phase is BoundAddress
            &&& n == 3 && connected && long ==> phase is BoundAddress
            &&& n == 3 && connected && short ==> phase is Answer
            &&& n == 4 && connected && long ==> phase is Answer
            &&& step is Succeed ==> phase is Finished && proxy_served(replies)
            &&& proxy_served(replies) ==> step is Succeed
        }),
    decreases replies.len(),
{
    if replies.len() > 0 {
        let before = replies.drop_last();
        lemma_run_shape(host, before);
        assert forall|i: int| 0 <= i < before.len() implies before[i] == replies[i] by {}
        assert(good_status(replies.last()) ==> replies.last().len() > 0) by {
            if good_status(replies.last()) {
                let (m, c) = choose|m: u8, c: u8|
                    (m == 48 || m == 49) && (c == 50 || c == 51) && #[trigger] status_prefix(
                        m,
                        c,
                    ).is_prefix_of(replies.last());
                assert(status_prefix(m, c).len() == 10);
            }
        }
    }
}

/// The request to connect names the host after its length, and port 80.
pub proof fn the_proxy_is_told_the_host(host: Seq<u8>)
    ensures
        ({
            let c = socks5_connect(host);
            let n = host.len() as int;
            &&& c.len() == n + 7
            &&& c.subrange(0, 4) == seq![5u8, 1u8, 0u8, 3u8]
            &&& n < 256 ==> c[4] == n
            &&& c[4] == n % 256
            &&& c.subrange(5, 5 + n) == host
            &&& c[5 + n] * 256 + c[6 + n] == 80
        }),
{
    let c = socks5_connect(host);
    let n = host.len() as int;
    assert(c.subrange(0, 4) =~= seq![5u8, 1u8, 0u8, 3u8]);
    assert(c.subrange(5, 5 + n) =~= host);
}

/// The HTTP request is the same for every host but for its name, which stands
/// behind the first line and the name of its header.
pub proof fn the_request_names_the_host(host: Seq<char>)
    ensures
        ({
            let bare = http_request(Seq::empty());
            let r = http_request(host);
            let n = 22 + host.len() as int;
            &&& r == bare.take(22) + host + bare.skip(22)
            &&& r.take(22) == "GET / HTTP/1.1\r\nHost: "@
            &&& r.subrange(22, n) == host
            &&& r.skip(n) == "\r\nUser-Agent: rathole-health\r\nConnection: close\r\n\r\n"@
        }),
{
    reveal_strlit("GET / HTTP/1.1\r\nHost: ");
    let bare = http_request(Seq::empty());
    let r = http_request(host);
    let n = 22 + host.len() as int;
    assert(r =~= bare.take(22) + host + bare.skip(22));
    assert(r.take(22) =~= "GET / HTTP/1.1\r\nHost: "@);
    assert(r.subrange(22, n) =~= host);
    assert(r.skip(n) =~= "\r\nUser-Agent: rathole-health\r\nConnection: close\r\n\r\n"@);
}

/// An answer is a good one exactly when it begins with `HTTP/1.0` or
/// `HTTP/1.1`, a space, and a status of two or three hundred and something.
pub proof fn successes_and_redirections_are_good(answer: Seq<u8>)
    ensures
        good_status(answer) <==> {
            &&& answer.len() >= 10
            &&& answer[0] == 72 && answer[1] == 84 && answer[2] == 84 && answer[3] == 80
            &&& answer[4] == 47 && answer[5] == 49 && answer[6] == 46
            &&& answer[7] == 48 || answer[7] == 49
            &&& answer[8] == 32
            &&& answer[9] == 50 || answer[9] == 51
        },
{
    if answer.len() >= 10 {
        let p = status_prefix(answer[7], answer[9]);
        if answer[0] == 72 && answer[1] == 84 && answer[2] == 84 && answer[3] == 80 && answer[4]
            == 47 && answer[5] == 49 && answer[6] == 46 && answer[8] == 32 {
            assert(p =~= answer.subrange(0, 10));
            assert(p.is_prefix_of(answer));
        }
    }
    if good_status(answer) {
        let (m, c) = choose|m: u8, c: u8|
            (m == 48 || m == 49) && (c == 50 || c == 51) && #[trigger] status_prefix(
                m,
                c,
            ).is_prefix_of(answer);
        let p = status_prefix(m, c);
        assert(p.len() == 10);
        assert(p =~= answer.subrange(0, 10));
        assert forall|i: int| 0 <= i < 10 implies p[i] == answer[i] by {
            assert(p[i] == answer.subrange(0, 10)[i]);
        }
        assert(p[0] == 72 && p[1] == 84 && p[2] == 84 && p[3] == 80 && p[4] == 47 && p[5] == 49
            && p[6] == 46 && p[7] == m && p[8] == 32 && p[9] == c);
    }
}

/// The first line of an answer goes up to the first line feed, or the carriage
/// return right before it; without a line feed it is the whole answer.
pub proof fn the_first_line_ends_before_the_line_feed(answer: Seq<u8>, k: int)
    requires
        0 <= k <= answer.len(),
        forall|i: int| 0 <= i < k ==> answer[i] != 10,
        k < answer.len() ==> answer[k] == 10,
    ensures
        k == answer.len() ==> first_line(answer) == answer,
        k < answer.len() && k > 0 && answer[k - 1] == 13 ==> first_line(answer) == answer.take(
            k - 1,
        ),
        k < answer.len() && !(k > 0 && answer[k - 1] == 13) ==> first_line(answer) == answer.take(
            k,
        ),
{
    lemma_before_line_feed(answer, k);
    assert(answer.take(answer.len() as int) =~= answer);
    if k > 0 {
        assert(answer.take(k).drop_last() =~= answer.take(k - 1));
    }
}

/// A proxy that goes without authentication is asked to connect to the host of
/// the probe, and the head of its reply is read. Once the whole reply was read,
/// the host is asked for its page, and the beginning of the answer is read.
pub proof fn the_host_is_asked_through_the_proxy(host: Seq<char>, n: usize, rest: Seq<u8>)
    ensures
        after_reply(HttpProbePhase::Method, host, seq![5u8, 0u8]) == (
            HttpProbePhase::ConnectHead,
            HttpStep::Exchange(socks5_connect(text_bytes(host)), 4),
        ),
        after_reply(HttpProbePhase::BoundAddress(n), host, rest) == (
            HttpProbePhase::Answer,
            HttpStep::SendAndReadSome(text_bytes(http_request(host)), 256),
        ),
{
}

/// The reply of a proxy that connected is read to its end: an address of four
/// or sixteen bytes, or of as many as one byte more tells, and a port of two.
pub proof fn the_reply_is_read_to_its_end(host: Seq<char>, head: Seq<u8>, len: u8)
    requires
        head.len() == 4,
        head[1] == 0,
    ensures
        ({
            let after = after_reply(HttpProbePhase::ConnectHead, host, head);
            &&& head[3] == 1 ==> after == (
                HttpProbePhase::BoundAddress(6),
                HttpStep::Exchange(Seq::empty(), 4 + 2),
            )
            &&& head[3] == 4 ==> after == (
                HttpProbePhase::BoundAddress(18),
                HttpStep::Exchange(Seq::empty(), 16 + 2),
            )
            &&& head[3] == 3 ==> after == (
                HttpProbePhase::DomainLen,
                HttpStep::Exchange(Seq::empty(), 1),
            )
        }),
        after_reply(HttpProbePhase::DomainLen, host, seq![len]) == (
            HttpProbePhase::BoundAddress((len + 2) as usize),
            HttpStep::Exchange(Seq::empty(), (len + 2) as nat),
        ),
{
}

/// What a probe fails with tells where and why: the two bytes of a proxy that
/// wants authentication, the code of one that did not connect, an address of
/// an unknown kind, no answer, or the first line of one that is no good. There
/// is no other failure, and each of these is one.
pub proof fn failures_tell_where_and_why(
    phase: HttpProbePhase,
    host: Seq<char>,
    reply: Seq<u8>,
)
    requires
        reply_fits(phase, reply),
    ensures
        ({
            let (next, step) = after_reply(phase, host, reply);
            let fault = step->Fail_0;
            &&& step is Fail || step is Succeed <==> next is Finished
            &&& step is Fail && fault is MethodRefused <==> phase is Method && !(reply[0] == 5
                && reply[1] == 0)
            &&& step is Fail && fault is ConnectRefused <==> phase is ConnectHead && reply[1] != 0
            &&& step is Fail && fault is BadAddressType <==> phase is ConnectHead && reply[1] == 0
                && reply[3] != 1 && reply[3] != 3 && reply[3] != 4
            &&& step is Fail && fault is NoResponse <==> phase is Answer && reply.len() == 0
            &&& step is Fail && fault is BadStatusLine <==> phase is Answer && reply.len() > 0
                && !good_status(reply)
            &&& step is Succeed <==> phase is Answer && reply.len() > 0 && good_status(reply)
            &&& step is Fail && phase is Method ==> fault == HttpFault::MethodRefused(
                reply[0],
                reply[1],
            )
            &&& step is Fail && phase is ConnectHead && reply[1] != 0 ==> fault
                == HttpFault::ConnectRefused(reply[1])
            &&& step is Fail && phase is Answer && reply.len() > 0 ==> fault
                == HttpFault::BadStatusLine(first_line(reply))
        }),
{
    if phase is Method {
        assert(seq![5u8, 0u8][0] == 5 && seq![5u8, 0u8][1] == 0);
        if reply[0] == 5 && reply[1] == 0 {
            assert(reply =~= seq![5u8, 0u8]);
        }
    }
}

/// Failures are told in the same words whatever the proxy and the host said,
/// with the proxy's bytes, its code, or the host's first line in their place.
pub proof fn http_failures_are_told_alike(a: u8, b: u8, line: Seq<char>, more: Seq<char>, l: Seq<u8>)
    ensures
        ({
            let x = http_fault_chars(HttpFault::MethodRefused(0, 0), line);
            let n = x.len() as int;
            http_fault_chars(HttpFault::MethodRefused(a, b), line) == x.take(n - 5) + decimal(
                a as nat,
            ) + x.subrange(n - 4, n - 2) + decimal(b as nat) + x.skip(n - 1)
        }),
        http_fault_chars(HttpFault::ConnectRefused(a), line) == http_fault_chars(
            HttpFault::ConnectRefused(0),
            line,
        ).drop_last() + hex_byte(a),
        http_fault_chars(HttpFault::BadStatusLine(l), line + more) == http_fault_chars(
            HttpFault::BadStatusLine(Seq::empty()),
            line,
        ) + more,
        forall|fault: HttpFault|
            !(fault is BadStatusLine) ==> #[trigger] http_fault_chars(fault, line + more)
                == http_fault_chars(fault, line),
        fault_line(HttpFault::BadStatusLine(l)) == l,
{
    reveal_strlit("]");
    reveal_strlit(", ");
    let x = http_fault_chars(HttpFault::MethodRefused(0, 0), line);
    let n = x.len() as int;
    assert(decimal(0).len() == 1);
    assert(http_fault_chars(HttpFault::MethodRefused(a, b), line) =~= x.take(n - 5) + decimal(
        a as nat,
    ) + x.subrange(n - 4, n - 2) + decimal(b as nat) + x.skip(n - 1));
    assert(http_fault_chars(HttpFault::ConnectRefused(a), line) =~= http_fault_chars(
        HttpFault::ConnectRefused(0),
        line,
    ).drop_last() + hex_byte(a));
    assert(http_fault_chars(HttpFault::BadStatusLine(l), line + more) =~= http_fault_chars(
        HttpFault::BadStatusLine(Seq::empty()),
        line,
    ) + more);
}

/// An action stands for what is sent, byte for byte, and how much is read, or
/// for the outcome with everything that it tells.
pub proof fn actions_stand_for_themselves(
    bytes: Vec<u8>,
    n: usize,
    a: u8,
    b: u8,
    e: HttpProbeError,
)
    ensures
        HttpProbeAction::Exchange(bytes, n)@ == HttpStep::Exchange(bytes@, n as nat),
        HttpProbeAction::SendAndReadSome(bytes, n)@ == HttpStep::SendAndReadSome(bytes@, n as nat),
        HttpProbeAction::Finish(Ok(()))@ == HttpStep::Succeed,
        HttpProbeAction::Finish(Err(e))@ == HttpStep::Fail(e@),
        HttpProbeError::MethodRefused(a, b)@ == HttpFault::MethodRefused(a, b),
        HttpProbeError::ConnectRefused(a)@ == HttpFault::ConnectRefused(a),
        HttpProbeError::BadAddressType@ == HttpFault::BadAddressType,
        HttpProbeError::NoResponse@ == HttpFault::NoResponse,
        HttpProbeError::BadStatusLine(bytes)@ == HttpFault::BadStatusLine(bytes@),
        socks5_greeting() == seq![5u8, 1u8, 0u8],
{
}

} // verus!
