//! The Firecracker REST API: requests as HTTP/1.1 text, and what a reply means.

use crate::error::{Failure, FirecrackerError};
use crate::text::{
    after_first, after_first_text, cat3, decimal, decimal_text, is_space, law_parse_reads_decimal,
    law_words,
    lemma_decimal_digits, lemma_first_word_ends, lemma_parse_unsigned_bound, lossy, lossy_text,
    parse_unsigned, parse_unsigned_text, second_word, trim_start, words,
};
use vstd::prelude::*;
use vstd::string::*;
use vstd::utf8::*;

verus! {

// ── Request body types ───────────────────────────────────────────────────────

#[derive(Debug)]
pub struct MachineConfig {
    pub vcpu_count: u32,
    pub mem_size_mib: u32,
}

#[derive(Debug)]
pub struct BootSource {
    pub kernel_image_path: String,
    pub boot_args: String,
}

#[derive(Debug)]
pub struct Drive {
    pub drive_id: String,
    pub path_on_host: String,
    pub is_root_device: bool,
    pub is_read_only: bool,
}

#[derive(Debug)]
pub struct NetworkInterface {
    pub iface_id: String,
    pub host_dev_name: String,
    pub guest_mac: String,
}

#[derive(Debug)]
pub struct InstanceAction {
    pub action_type: String,
}

#[derive(Debug)]
pub struct SnapshotCreate {
    pub snapshot_type: String,
    pub snapshot_path: String,
    pub mem_file_path: String,
}

#[derive(Debug)]
pub struct SnapshotLoad {
    pub snapshot_path: String,
    pub mem_backend: MemBackend,
    pub enable_diff_snapshots: bool,
    pub resume_vm: bool,
}

#[derive(Debug)]
pub struct MemBackend {
    pub backend_type: String,
    pub backend_path: String,
}

/// The body of a request, sent as a JSON object with the fields of its type.
#[derive(Debug)]
pub enum RequestBody {
    MachineConfig(MachineConfig),
    BootSource(BootSource),
    Drive(Drive),
    NetworkInterface(NetworkInterface),
    InstanceAction(InstanceAction),
    SnapshotCreate(SnapshotCreate),
    SnapshotLoad(SnapshotLoad),
}

/// The content of a [`RequestBody`].
pub enum Body {
    MachineConfig { vcpu_count: u32, mem_size_mib: u32 },
    BootSource { kernel_image_path: Seq<char>, boot_args: Seq<char> },
    Drive {
        drive_id: Seq<char>,
        path_on_host: Seq<char>,
        is_root_device: bool,
        is_read_only: bool,
    },
    NetworkInterface { iface_id: Seq<char>, host_dev_name: Seq<char>, guest_mac: Seq<char> },
    InstanceAction { action_type: Seq<char> },
    SnapshotCreate {
        snapshot_type: Seq<char>,
        snapshot_path: Seq<char>,
        mem_file_path: Seq<char>,
    },
    SnapshotLoad {
        snapshot_path: Seq<char>,
        backend_type: Seq<char>,
        backend_path: Seq<char>,
        enable_diff_snapshots: bool,
        resume_vm: bool,
    },
}

impl View for RequestBody {
    type V = Body;

    open spec fn view(&self) -> Body {
        match self {
            RequestBody::MachineConfig(b) => Body::MachineConfig {
                vcpu_count: b.vcpu_count,
                mem_size_mib: b.mem_size_mib,
            },
            RequestBody::BootSource(b) => Body::BootSource {
                kernel_image_path: b.kernel_image_path@,
                boot_args: b.boot_args@,
            },
            RequestBody::Drive(b) => Body::Drive {
                drive_id: b.drive_id@,
                path_on_host: b.path_on_host@,
                is_root_device: b.is_root_device,
                is_read_only: b.is_read_only,
            },
            RequestBody::NetworkInterface(b) => Body::NetworkInterface {
                iface_id: b.iface_id@,
                host_dev_name: b.host_dev_name@,
                guest_mac: b.guest_mac@,
            },
            RequestBody::InstanceAction(b) => Body::InstanceAction { action_type: b.action_type@ },
            RequestBody::SnapshotCreate(b) => Body::SnapshotCreate {
                snapshot_type: b.snapshot_type@,
                snapshot_path: b.snapshot_path@,
                mem_file_path: b.mem_file_path@,
            },
            RequestBody::SnapshotLoad(b) => Body::SnapshotLoad {
                snapshot_path: b.snapshot_path@,
                backend_type: b.mem_backend.backend_type@,
                backend_path: b.mem_backend.backend_path@,
                enable_diff_snapshots: b.enable_diff_snapshots,
                resume_vm: b.resume_vm,
            },
        }
    }
}

impl Clone for RequestBody {
    fn clone(&self) -> (res: Self)
        ensures
            res@ == self@,
    {
        match self {
            RequestBody::MachineConfig(b) => RequestBody::MachineConfig(
                MachineConfig { vcpu_count: b.vcpu_count, mem_size_mib: b.mem_size_mib },
            ),
            RequestBody::BootSource(b) => RequestBody::BootSource(
                BootSource {
                    kernel_image_path: b.kernel_image_path.clone(),
                    boot_args: b.boot_args.clone(),
                },
            ),
            RequestBody::Drive(b) => RequestBody::Drive(
                Drive {
                    drive_id: b.drive_id.clone(),
                    path_on_host: b.path_on_host.clone(),
                    is_root_device: b.is_root_device,
                    is_read_only: b.is_read_only,
                },
            ),
            RequestBody::NetworkInterface(b) => RequestBody::NetworkInterface(
                NetworkInterface {
                    iface_id: b.iface_id.clone(),
                    host_dev_name: b.host_dev_name.clone(),
                    guest_mac: b.guest_mac.clone(),
                },
            ),
            RequestBody::InstanceAction(b) => RequestBody::InstanceAction(
                InstanceAction { action_type: b.action_type.clone() },
            ),
            RequestBody::SnapshotCreate(b) => RequestBody::SnapshotCreate(
                SnapshotCreate {
                    snapshot_type: b.snapshot_type.clone(),
                    snapshot_path: b.snapshot_path.clone(),
                    mem_file_path: b.mem_file_path.clone(),
                },
            ),
            RequestBody::SnapshotLoad(b) => RequestBody::SnapshotLoad(
                SnapshotLoad {
                    snapshot_path: b.snapshot_path.clone(),
                    mem_backend: MemBackend {
                        backend_type: b.mem_backend.backend_type.clone(),
                        backend_path: b.mem_backend.backend_path.clone(),
                    },
                    enable_diff_snapshots: b.enable_diff_snapshots,
                    resume_vm: b.resume_vm,
                },
            ),
        }
    }
}

// ── Requests ─────────────────────────────────────────────────────────────────

/// The methods that the API is called with.
#[derive(Clone, Copy, PartialEq, Eq, Debug, Structural)]
pub enum Method {
    Put,
    Patch,
}

/// The name of a method on the wire.
pub open spec fn method_name(method: Method) -> Seq<char> {
    match method {
        Method::Put => "PUT"@,
        Method::Patch => "PATCH"@,
    }
}

impl Method {
    /// The name of this method on the wire.
    pub fn name(&self) -> (name: &'static str)
        ensures
            name@ == method_name(*self),
    {
        match self {
            Method::Put => "PUT",
            Method::Patch => "PATCH",
        }
    }
}

/// One call of the API behind a socket.
#[derive(Debug)]
pub struct ApiCall {
    pub socket_path: String,
    pub method: Method,
    pub path: String,
    pub body: RequestBody,
}

/// The content of an [`ApiCall`].
pub struct Call {
    pub socket_path: Seq<char>,
    pub method: Method,
    pub path: Seq<char>,
    pub body: Body,
}

impl View for ApiCall {
    type V = Call;

    open spec fn view(&self) -> Call {
        Call {
            socket_path: self.socket_path@,
            method: self.method,
            path: self.path@,
            body: self.body@,
        }
    }
}

impl Clone for ApiCall {
    fn clone(&self) -> (res: Self)
        ensures
            res@ == self@,
    {
        ApiCall {
            socket_path: self.socket_path.clone(),
            method: self.method,
            path: self.path.clone(),
            body: self.body.clone(),
        }
    }
}

/// The HTTP text of a request. The length that it announces is that of the body in bytes.
pub open spec fn request_text(method: Seq<char>, path: Seq<char>, body: Seq<char>) -> Seq<char> {
    method + " "@ + path
        + " HTTP/1.1\r\nHost: localhost\r\nContent-Type: application/json\r\nContent-Length: "@
        + decimal(encode_utf8(body).len()) + "\r\nAccept: application/json\r\n\r\n"@ + body
}

impl ApiCall {
    /// The text that this call is sent as, with `json` as its body.
    pub fn request(&self, json: &str) -> (text: String)
        ensures
            text@ == request_text(method_name(self.method), self.path@, json@),
    {
        FcApi::request(self.method.name(), self.path.as_str(), Some(json))
    }
}

/// Thin client for the Firecracker REST API: the calls behind one socket.
#[derive(Debug)]
pub struct FcApi {
    socket_path: String,
}

impl View for FcApi {
    type V = Seq<char>;

    /// The path of the socket.
    closed spec fn view(&self) -> Seq<char> {
        self.socket_path@
    }
}

impl FcApi {
    /// The API behind the socket at `socket_path`.
    pub fn new(socket_path: &str) -> (api: FcApi)
        ensures
            api@ == socket_path@,
    {
        FcApi { socket_path: socket_path.to_owned() }
    }

    /// The call that PUTs a JSON body to an API endpoint.
    pub fn put(&self, path: &str, body: RequestBody) -> (call: ApiCall)
        ensures
            call@ == (Call { socket_path: self@, method: Method::Put, path: path@, body: body@ }),
    {
        ApiCall {
            socket_path: self.socket_path.clone(),
            method: Method::Put,
            path: path.to_owned(),
            body,
        }
    }

    /// The call that PATCHes a JSON body to an API endpoint.
    pub fn patch(&self, path: &str, body: RequestBody) -> (call: ApiCall)
        ensures
            call@ == (Call { socket_path: self@, method: Method::Patch, path: path@, body: body@ }),
    {
        ApiCall {
            socket_path: self.socket_path.clone(),
            method: Method::Patch,
            path: path.to_owned(),
            body,
        }
    }

    /// The text that a request is sent as.
    pub fn request(method: &str, path: &str, body: Option<&str>) -> (text: String)
        ensures
            text@ == request_text(
                method@,
                path@,
                match body {
                    Some(b) => b@,
                    None => Seq::empty(),
                },
            ),
    {
        let content: &str = match body {
            Some(b) => b,
            None => "",
        };
        proof {
            reveal_strlit("");
            assert(content@ =~= match body {
                Some(b) => b@,
                None => Seq::empty(),
            });
        }
        let length: usize = content.as_bytes().len();
        cat3(method, " ", path).concat(
            " HTTP/1.1\r\nHost: localhost\r\nContent-Type: application/json\r\nContent-Length: ",
        ).concat(decimal_text(length as u64).as_str()).concat(
            "\r\nAccept: application/json\r\n\r\n",
        ).concat(content)
    }
}

// ── Replies ──────────────────────────────────────────────────────────────────

/// The status and the body of an HTTP response.
#[derive(Debug)]
pub struct Response {
    pub status: u16,
    pub body: String,
}

/// The status code of a response: its second word, as a number.
pub open spec fn status_of(raw: Seq<char>) -> Option<u16> {
    if words(raw).len() > 1 {
        match parse_unsigned(words(raw)[1], u16::MAX as nat) {
            Ok(status) => Some(status as u16),
            Err(_) => None,
        }
    } else {
        None
    }
}

/// The body of a response: what follows the first empty line, or nothing.
pub open spec fn body_of(raw: Seq<char>) -> Seq<char> {
    match after_first(raw, "\r\n\r\n"@) {
        Some(body) => body,
        None => Seq::empty(),
    }
}

/// Reads an HTTP response: `HTTP/1.1 <status> <reason>\r\n...`.
pub fn parse_response(raw: &str) -> (response: Result<Response, FirecrackerError>)
    ensures
        match response {
            Ok(r) => status_of(raw@) == Some(r.status) && r.body@ == body_of(raw@),
            Err(e) => status_of(raw@) is None && e@ == Failure::ApiConnect(
                "malformed HTTP response"@,
            ),
        },
{
    let malformed = FirecrackerError::ApiConnect("malformed HTTP response".to_owned());
    let status: u16 = match second_word(raw) {
        Some(word) => match parse_unsigned_text(word.as_str(), u16::MAX as u64) {
            Ok(n) => {
                proof {
                    lemma_parse_unsigned_bound(word@, u16::MAX as nat);
                }
                n as u16
            },
            Err(_) => {
                return Err(malformed);
            },
        },
        None => {
            return Err(malformed);
        },
    };
    let body = match after_first_text(raw, "\r\n\r\n") {
        Some(rest) => rest,
        None => String::new(),
    };
    Ok(Response { status, body })
}

/// How the exchange of a request and its reply went.
#[derive(Debug)]
pub enum Exchange {
    /// The body could not be written as JSON, for the given reason.
    Unwritable(String),
    /// The socket could not be connected to, for the given reason.
    Unreachable(String),
    /// Sending or receiving failed, for the given reason.
    Broken(String),
    /// These bytes came back.
    Reply(Vec<u8>),
}

/// The content of an [`Exchange`].
pub enum ExchangeView {
    Unwritable(Seq<char>),
    Unreachable(Seq<char>),
    Broken(Seq<char>),
    Reply(Seq<u8>),
}

impl View for Exchange {
    type V = ExchangeView;

    open spec fn view(&self) -> ExchangeView {
        match self {
            Exchange::Unwritable(reason) => ExchangeView::Unwritable(reason@),
            Exchange::Unreachable(reason) => ExchangeView::Unreachable(reason@),
            Exchange::Broken(reason) => ExchangeView::Broken(reason@),
            Exchange::Reply(bytes) => ExchangeView::Reply(bytes@),
        }
    }
}

/// What is wrong with a reply, if anything: only a status from 200 to 299 is a success.
pub open spec fn reply_failure(raw: Seq<char>) -> Option<Failure> {
    match status_of(raw) {
        None => Some(Failure::ApiConnect("malformed HTTP response"@)),
        Some(status) => if 200 <= status < 300 {
            None
        } else {
            Some(Failure::Api { status, body: body_of(raw) })
        },
    }
}

/// What is wrong with an exchange, if anything.
pub open spec fn exchange_failure(exchange: ExchangeView) -> Option<Failure> {
    match exchange {
        ExchangeView::Unwritable(reason) => Some(Failure::Api { status: 0, body: reason }),
        ExchangeView::Unreachable(reason) => Some(Failure::ApiConnect(reason)),
        ExchangeView::Broken(reason) => Some(Failure::Io(reason)),
        ExchangeView::Reply(bytes) => reply_failure(lossy(bytes)),
    }
}

/// Judges the text of a reply.
pub fn check_reply(raw: &str) -> (result: Result<(), FirecrackerError>)
    ensures
        match result {
            Ok(_) => reply_failure(raw@) is None,
            Err(e) => reply_failure(raw@) == Some(e@),
        },
{
    let response = parse_response(raw)?;
    if response.status < 200 || response.status >= 300 {
        return Err(FirecrackerError::Api { status: response.status, body: response.body });
    }
    Ok(())
}

/// Judges an exchange.
pub fn check_exchange(exchange: &Exchange) -> (result: Result<(), FirecrackerError>)
    ensures
        match result {
            Ok(_) => exchange_failure(exchange@) is None,
            Err(e) => exchange_failure(exchange@) == Some(e@),
        },
        exchange@ matches ExchangeView::Reply(bytes) ==> valid_utf8(bytes) ==> match result {
            Ok(_) => reply_failure(decode_utf8(bytes)) is None,
            Err(e) => reply_failure(decode_utf8(bytes)) == Some(e@),
        },
{
    match exchange {
        Exchange::Unwritable(reason) => Err(
            FirecrackerError::Api { status: 0, body: reason.clone() },
        ),
        Exchange::Unreachable(reason) => Err(FirecrackerError::ApiConnect(reason.clone())),
        Exchange::Broken(reason) => Err(FirecrackerError::Io(reason.clone())),
        Exchange::Reply(bytes) => check_reply(lossy_text(bytes.as_slice()).as_str()),
    }
}

// ── Laws ─────────────────────────────────────────────────────────────────────

/// A response `HTTP/1.1 <status><rest>`, an empty line and a body is read as that status and
/// that body: whatever the rest holds, as long as it starts with white space and the empty line
/// is the first.
pub proof fn law_response_is_read(status: u16, rest: Seq<char>, body: Seq<char>)
    requires
        rest.len() > 0 ==> is_space(rest[0]),
        ({
            let head = "HTTP/1.1 "@ + decimal(status as nat) + rest;
            let raw = head + "\r\n\r\n"@ + body;
            forall|i: int|
                0 <= i < head.len() ==> #[trigger] raw.subrange(i, i + 4) != "\r\n\r\n"@
        }),
    ensures
        ({
            let raw = "HTTP/1.1 "@ + decimal(status as nat) + rest + "\r\n\r\n"@ + body;
            &&& status_of(raw) == Some(status)
            &&& body_of(raw) == body
            &&& reply_failure(raw) == if 200 <= status < 300 {
                None::<Failure>
            } else {
                Some(Failure::Api { status, body })
            }
        }),
{
    reveal_strlit("HTTP/1.1 ");
    reveal_strlit("\r\n\r\n");
    let version = "HTTP/1.1 "@;
    let blank = "\r\n\r\n"@;
    let digits = decimal(status as nat);
    let head = version + digits + rest;
    let raw = head + blank + body;
    let n = digits.len() as int;
    lemma_decimal_digits(status as nat);
    // The first word is the version.
    assert(raw[0] == 'H' && raw[8] == ' ');
    assert(trim_start(raw) == raw);
    assert forall|i: int| 0 <= i < 8 implies !is_space(#[trigger] raw[i]) by {
        assert(raw[i] == version[i]);
    }
    lemma_first_word_ends(raw, 8);
    // The second is the status.
    let tail = raw.skip(8);
    let after_space = raw.skip(9);
    assert(tail[0] == ' ');
    assert(tail.drop_first() =~= after_space);
    assert forall|i: int| 0 <= i < n implies after_space[i] == digits[i] by {}
    assert(after_space[0] == digits[0]);
    assert(!is_space(after_space[0]));
    assert(trim_start(after_space) == after_space);
    assert(trim_start(tail) == after_space);
    assert forall|i: int| 0 <= i < n implies !is_space(#[trigger] after_space[i]) by {
        assert(after_space[i] == digits[i]);
    }
    assert(is_space(after_space[n])) by {
        if rest.len() > 0 {
            assert(after_space[n] == rest[0]);
        } else {
            assert(after_space[n] == blank[0]);
        }
    }
    lemma_first_word_ends(after_space, n);
    assert(after_space.take(n) =~= digits);
    assert(words(raw)[1] == words(tail)[0]);
    law_parse_reads_decimal(status as nat, u16::MAX as nat);
    // The body follows the first empty line.
    let at = head.len() as int;
    assert(raw.subrange(at, at + blank.len()) =~= blank);
    assert forall|i: int| 0 <= i < at implies #[trigger] raw.subrange(i, i + blank.len())
        != blank by {
        assert(raw.subrange(i, i + 4) != blank);
    }
    lemma_after_first(raw, blank, at);
    assert(raw.skip(head.len() as int + 4) =~= body);
}

/// A request carries its body after its first empty line, as long as no carriage return stands
/// in the method or the path.
pub proof fn law_request_carries_its_body(method: Seq<char>, path: Seq<char>, body: Seq<char>)
    requires
        forall|i: int| 0 <= i < method.len() ==> #[trigger] method[i] != '\r',
        forall|i: int| 0 <= i < path.len() ==> #[trigger] path[i] != '\r',
    ensures
        body_of(request_text(method, path, body)) == body,
{
    reveal_strlit(" ");
    reveal_strlit("\r\n\r\n");
    let blank = "\r\n\r\n"@;
    let upper =
        " HTTP/1.1\r\nHost: localhost\r\nContent-Type: application/json\r\nContent-Length: "@;
    let lower = "\r\nAccept: application/json\r\n\r\n"@;
    reveal_strlit(
        " HTTP/1.1\r\nHost: localhost\r\nContent-Type: application/json\r\nContent-Length: ",
    );
    reveal_strlit("\r\nAccept: application/json\r\n\r\n");
    let digits = decimal(encode_utf8(body).len());
    lemma_decimal_digits(encode_utf8(body).len());
    let line = method + " "@ + path;
    let raw = request_text(method, path, body);
    let u = line.len() as int;
    let d = u + upper.len();
    let l = d + digits.len();
    let at = l + lower.len() - 4;
    assert forall|i: int| 0 <= i < u implies #[trigger] raw[i] != '\r' by {
        if i < method.len() {
            assert(raw[i] == method[i]);
        } else if i > method.len() {
            assert(raw[i] == path[i - method.len() - 1]);
        }
    }
    assert(forall|i: int|
        0 <= i < upper.len() && #[trigger] upper[i] == '\r' ==> i == 9 || i == 26 || i == 58);
    assert(forall|i: int|
        0 <= i < lower.len() - 4 && #[trigger] lower[i] == '\r' ==> i == 0);
    assert forall|i: int| 0 <= i < at implies #[trigger] raw.subrange(i, i + blank.len())
        != blank by {
        let part = raw.subrange(i, i + blank.len());
        if part == blank {
            assert(part[0] == raw[i] && part[2] == raw[i + 2]);
            if i >= u && i < d {
                assert(raw[i] == upper[i - u]);
                assert(raw[i + 2] == upper[i - u + 2]);
            } else if i >= d && i < l {
                assert(raw[i] == digits[i - d]);
            } else if i >= l {
                assert(raw[i] == lower[i - l]);
                assert(raw[i + 2] == lower[i - l + 2]);
            }
        }
    }
    assert(raw.subrange(at, at + blank.len()) =~= blank);
    lemma_after_first(raw, blank, at);
    assert(raw.skip(at + 4) =~= body);
}

/// What follows the first occurrence of a pattern, where that occurrence is known.
proof fn lemma_after_first(s: Seq<char>, pattern: Seq<char>, at: int)
    requires
        0 <= at,
        at + pattern.len() <= s.len(),
        pattern.len() > 0,
        s.subrange(at, at + pattern.len()) == pattern,
        forall|i: int|
            0 <= i < at ==> #[trigger] s.subrange(i, i + pattern.len()) != pattern,
    ensures
        after_first(s, pattern) == Some(s.skip(at + pattern.len())),
    decreases at,
{
    assert(s.take(pattern.len() as int) =~= s.subrange(0, pattern.len() as int));
    if at > 0 {
        assert(s.subrange(0int, 0int + pattern.len()) != pattern);
        let rest = s.drop_first();
        assert(rest.subrange(at - 1, at - 1 + pattern.len()) =~= pattern) by {
            assert(rest.subrange(at - 1, at - 1 + pattern.len()) =~= s.subrange(
                at,
                at + pattern.len(),
            ));
        }
        assert forall|i: int| 0 <= i < at - 1 implies #[trigger] rest.subrange(
            i,
            i + pattern.len(),
        ) != pattern by {
            assert(rest.subrange(i, i + pattern.len()) =~= s.subrange(
                i + 1,
                i + 1 + pattern.len(),
            ));
        }
        lemma_after_first(rest, pattern, at - 1);
        assert(rest.skip(at - 1 + pattern.len()) =~= s.skip(at + pattern.len()));
    }
}

/// A request is a request line with the method and the path, four headers, of which one tells the
/// body's length in bytes, an empty line, and the body.
pub proof fn law_request_lines(method: Seq<char>, path: Seq<char>, body: Seq<char>)
    ensures
        ({
            let end = seq!['\r', '\n'];
            request_text(method, path, body) == method + seq![' '] + path + " HTTP/1.1"@ + end
                + "Host: localhost"@ + end + "Content-Type: application/json"@ + end
                + "Content-Length: "@ + decimal(encode_utf8(body).len()) + end
                + "Accept: application/json"@ + end + end + body
        }),
        method_name(Method::Put) == "PUT"@,
        method_name(Method::Patch) == "PATCH"@,
{
    let end = seq!['\r', '\n'];
    reveal_strlit(" ");
    reveal_strlit(
        " HTTP/1.1\r\nHost: localhost\r\nContent-Type: application/json\r\nContent-Length: ",
    );
    reveal_strlit("\r\nAccept: application/json\r\n\r\n");
    reveal_strlit(" HTTP/1.1");
    reveal_strlit("Host: localhost");
    reveal_strlit("Content-Type: application/json");
    reveal_strlit("Content-Length: ");
    reveal_strlit("Accept: application/json");
    assert(" "@ =~= seq![' ']);
    assert(" HTTP/1.1\r\nHost: localhost\r\nContent-Type: application/json\r\nContent-Length: "@
        =~= " HTTP/1.1"@ + end + "Host: localhost"@ + end + "Content-Type: application/json"@ + end
        + "Content-Length: "@);
    assert("\r\nAccept: application/json\r\n\r\n"@ =~= end + "Accept: application/json"@ + end
        + end);
    assert(request_text(method, path, body) =~= method + seq![' '] + path + " HTTP/1.1"@ + end
        + "Host: localhost"@ + end + "Content-Type: application/json"@ + end
        + "Content-Length: "@ + decimal(encode_utf8(body).len()) + end
        + "Accept: application/json"@ + end + end + body);
}

/// The status of a response is the number that its second word writes, where that is a number
/// below 65536. A response with fewer words has none.
pub proof fn law_status_is_the_second_word(
    first: Seq<char>,
    c: char,
    lead: Seq<char>,
    second: Seq<char>,
    d: char,
    rest: Seq<char>,
)
    requires
        first.len() > 0,
        second.len() > 0,
        forall|i: int| 0 <= i < first.len() ==> !is_space(#[trigger] first[i]),
        forall|i: int| 0 <= i < second.len() ==> !is_space(#[trigger] second[i]),
        forall|i: int| 0 <= i < lead.len() ==> is_space(#[trigger] lead[i]),
        is_space(c),
        is_space(d),
    ensures
        status_of(lead) is None,
        status_of(lead + first) is None,
        status_of(first + seq![c] + lead) is None,
        status_of(first + seq![c] + (lead + second + seq![d] + rest)) == match parse_unsigned(
            second,
            65535,
        ) {
            Ok(n) => Some(n as u16),
            Err(_) => None::<u16>,
        },
        status_of(first + seq![c] + (lead + second)) == match parse_unsigned(second, 65535) {
            Ok(n) => Some(n as u16),
            Err(_) => None::<u16>,
        },
{
    let none = Seq::<char>::empty();
    law_words(lead, first, c, none);
    law_words(none, first, c, lead);
    law_words(lead, second, d, rest);
    law_words(none, first, c, lead + second + seq![d] + rest);
    law_words(none, first, c, lead + second);
    assert(none + first =~= first);
}

/// An exchange is a success exactly where a reply came whose status is from 200 to 299. Else the
/// error tells the status and the body, or why there was no reply, or none that can be read.
pub proof fn law_exchanges(reason: Seq<char>, bytes: Seq<u8>)
    ensures
        exchange_failure(ExchangeView::Unwritable(reason)) == Some(
            Failure::Api { status: 0, body: reason },
        ),
        exchange_failure(ExchangeView::Unreachable(reason)) == Some(Failure::ApiConnect(reason)),
        exchange_failure(ExchangeView::Broken(reason)) == Some(Failure::Io(reason)),
        exchange_failure(ExchangeView::Reply(bytes)) == match status_of(lossy(bytes)) {
            Some(status) => if status >= 200 && status <= 299 {
                None::<Failure>
            } else {
                Some(
                    Failure::Api {
                        status,
                        body: match after_first(lossy(bytes), seq!['\r', '\n', '\r', '\n']) {
                            Some(body) => body,
                            None => Seq::empty(),
                        },
                    },
                )
            },
            None => Some(Failure::ApiConnect("malformed HTTP response"@)),
        },
{
    reveal_strlit("\r\n\r\n");
    assert("\r\n\r\n"@ =~= seq!['\r', '\n', '\r', '\n']);
}

/// What is said of a call and its body is what is sent: each field under its own name.
pub proof fn law_calls_are_what_they_say(
    call: ApiCall,
    machine: MachineConfig,
    boot: BootSource,
    drive: Drive,
    interface: NetworkInterface,
    action: InstanceAction,
    create: SnapshotCreate,
    load: SnapshotLoad,
)
    ensures
        call@ == (Call {
            socket_path: call.socket_path@,
            method: call.method,
            path: call.path@,
            body: call.body@,
        }),
        RequestBody::MachineConfig(machine)@ == (Body::MachineConfig {
            vcpu_count: machine.vcpu_count,
            mem_size_mib: machine.mem_size_mib,
        }),
        RequestBody::BootSource(boot)@ == (Body::BootSource {
            kernel_image_path: boot.kernel_image_path@,
            boot_args: boot.boot_args@,
        }),
        RequestBody::Drive(drive)@ == (Body::Drive {
            drive_id: drive.drive_id@,
            path_on_host: drive.path_on_host@,
            is_root_device: drive.is_root_device,
            is_read_only: drive.is_read_only,
        }),
        RequestBody::NetworkInterface(interface)@ == (Body::NetworkInterface {
            iface_id: interface.iface_id@,
            host_dev_name: interface.host_dev_name@,
            guest_mac: interface.guest_mac@,
        }),
        RequestBody::InstanceAction(action)@ == (Body::InstanceAction {
            action_type: action.action_type@,
        }),
        RequestBody::SnapshotCreate(create)@ == (Body::SnapshotCreate {
            snapshot_type: create.snapshot_type@,
            snapshot_path: create.snapshot_path@,
            mem_file_path: create.mem_file_path@,
        }),
        RequestBody::SnapshotLoad(load)@ == (Body::SnapshotLoad {
            snapshot_path: load.snapshot_path@,
            backend_type: load.mem_backend.backend_type@,
            backend_path: load.mem_backend.backend_path@,
            enable_diff_snapshots: load.enable_diff_snapshots,
            resume_vm: load.resume_vm,
        }),
{
}

/// What is said of an exchange is how it went.
pub proof fn law_exchanges_are_what_they_say(text: String, bytes: Vec<u8>)
    ensures
        Exchange::Unwritable(text)@ == ExchangeView::Unwritable(text@),
        Exchange::Unreachable(text)@ == ExchangeView::Unreachable(text@),
        Exchange::Broken(text)@ == ExchangeView::Broken(text@),
        Exchange::Reply(bytes)@ == ExchangeView::Reply(bytes@),
{
}

} // verus!
