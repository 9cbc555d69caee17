//! What the HTTP client computes before it talks to a Capsula server: the
//! URLs of the API and the encoding of file paths in them.

use vstd::prelude::*;
use vstd::utf8::{encode_scalar, encode_utf8, leading_byte_width_1};
use crate::path::{file_name, file_name_spec};
use crate::text::{chars_of, copy_string, push_char, push_str};

verus! {

/// Whether a character is an ASCII letter or digit.
pub open spec fn is_ascii_alphanumeric(c: char) -> bool {
    ('0' <= c && c <= '9') || ('A' <= c && c <= 'Z') || ('a' <= c && c <= 'z')
}

/// Whether a byte is an ASCII letter or digit.
pub open spec fn is_alphanumeric_byte(b: u8) -> bool {
    (48 <= b && b <= 57) || (65 <= b && b <= 90) || (97 <= b && b <= 122)
}

/// The upper-case hexadecimal digit for `n < 16`.
pub open spec fn upper_hex_digit(n: nat) -> char {
    if n < 10 {
        ((48 + n) as u8) as char
    } else {
        ((55 + n) as u8) as char
    }
}

/// What one byte becomes: an ASCII letter or digit stays as it is, any other
/// byte is written `%XX` in upper-case hexadecimal.
pub open spec fn percent_byte(b: u8) -> Seq<char> {
    if is_alphanumeric_byte(b) {
        seq![b as char]
    } else {
        seq!['%', upper_hex_digit((b / 16) as nat), upper_hex_digit((b % 16) as nat)]
    }
}

/// Bytes percent-encoded, each as `percent_byte` writes it, in order.
pub open spec fn percent_bytes(bytes: Seq<u8>) -> Seq<char>
    decreases bytes.len(),
{
    if bytes.len() == 0 {
        seq![]
    } else {
        percent_byte(bytes[0]) + percent_bytes(bytes.drop_first())
    }
}

/// What `percent_encoding::utf8_percent_encode` with `NON_ALPHANUMERIC`
/// writes for a text: each byte of its UTF-8 form kept if it is an ASCII
/// letter or digit, written `%XX` otherwise.
pub open spec fn percent_encoded(text: Seq<char>) -> Seq<char> {
    percent_bytes(encode_utf8(text))
}

/// `percent_encoding::utf8_percent_encode(segment, NON_ALPHANUMERIC)`,
/// written out: the segment's UTF-8 bytes, each ASCII letter or digit kept
/// and every other byte written as `%` and two upper-case hexadecimal
/// digits.
#[verifier::external_body]
fn percent_encode_segment(segment: &str) -> (r: String)
    ensures
        r@ == percent_encoded(segment@),
{
    percent_encoding::utf8_percent_encode(segment, percent_encoding::NON_ALPHANUMERIC).to_string()
}

/// A text of ASCII letters and digits comes back unchanged from
/// percent-encoding.
pub proof fn lemma_alphanumeric_unencoded(text: Seq<char>)
    requires
        forall|i: int| 0 <= i < text.len() ==> is_ascii_alphanumeric(#[trigger] text[i]),
    ensures
        percent_encoded(text) == text,
    decreases text.len(),
{
    if text.len() > 0 {
        let c = text[0];
        let rest = text.drop_first();
        assert forall|i: int| 0 <= i < rest.len() implies is_ascii_alphanumeric(#[trigger] rest[i]) by {
            assert(rest[i] == text[i + 1]);
        }
        lemma_alphanumeric_unencoded(rest);
        let u = c as u32;
        assert(is_ascii_alphanumeric(c));
        assert(u <= 0x7F);
        assert((u & 0x7F) == u) by (bit_vector)
            requires
                u <= 0x7F,
        ;
        let b = leading_byte_width_1(u);
        assert(b as u32 == u);
        assert(encode_scalar(u) == seq![b]);
        assert(is_alphanumeric_byte(b));
        assert((b as char) == c);
        let bytes = encode_utf8(text);
        assert(bytes == seq![b] + encode_utf8(rest));
        assert(bytes[0] == b);
        assert(bytes.drop_first() =~= encode_utf8(rest));
        assert(percent_bytes(bytes) == seq![c] + percent_encoded(rest));
        assert(text =~= seq![c] + rest);
    }
}

/// The `/`-separated segments of a text, as `str::split('/')` gives them:
/// always at least one, possibly empty.
pub open spec fn slash_segments(s: Seq<char>) -> Seq<Seq<char>>
    decreases s.len(),
{
    if s.len() == 0 {
        seq![seq![]]
    } else {
        let rest = slash_segments(s.drop_last());
        if s.last() == '/' {
            rest.push(seq![])
        } else {
            rest.update(rest.len() - 1, rest.last().push(s.last()))
        }
    }
}

/// Segments joined with `/`.
pub open spec fn slash_joined(segs: Seq<Seq<char>>) -> Seq<char>
    decreases segs.len(),
{
    if segs.len() == 0 {
        seq![]
    } else if segs.len() == 1 {
        segs[0]
    } else {
        slash_joined(segs.drop_last()) + seq!['/'] + segs.last()
    }
}

/// `slash_segments` never gives an empty list.
pub proof fn lemma_slash_segments_nonempty(s: Seq<char>)
    ensures
        slash_segments(s).len() >= 1,
    decreases s.len(),
{
    if s.len() > 0 {
        lemma_slash_segments_nonempty(s.drop_last());
    }
}

/// A file path with each `/`-separated segment percent-encoded, the
/// separators kept.
pub open spec fn encoded_file_path(p: Seq<char>) -> Seq<char> {
    slash_joined(slash_segments(p).map_values(|s: Seq<char>| percent_encoded(s)))
}

/// The segments of `path` split at each `/`.
fn split_slash(path: &str) -> (r: Vec<String>)
    ensures
        r@.map_values(|s: String| s@) == slash_segments(path@),
{
    let cs = chars_of(path);
    let mut segs: Vec<String> = Vec::new();
    let mut cur = String::new();
    let mut i: usize = 0;
    while i < cs.len()
        invariant
            cs@ == path@,
            i <= cs.len(),
            segs@.map_values(|s: String| s@).push(cur@) == slash_segments(path@.take(i as int)),
        decreases cs.len() - i,
    {
        let ghost before = segs@.map_values(|s: String| s@).push(cur@);
        proof {
            assert(path@.take(i + 1).drop_last() =~= path@.take(i as int));
            lemma_slash_segments_nonempty(path@.take(i as int));
        }
        if cs[i] == '/' {
            let done = cur;
            segs.push(done);
            cur = String::new();
            proof {
                assert(segs@.map_values(|s: String| s@).push(cur@) =~= before.push(seq![]));
            }
        } else {
            push_char(&mut cur, cs[i]);
            proof {
                assert(segs@.map_values(|s: String| s@).push(cur@) =~= before.update(
                    before.len() - 1,
                    before.last().push(cs@[i as int]),
                ));
            }
        }
        i = i + 1;
    }
    segs.push(cur);
    proof {
        assert(path@.take(i as int) =~= path@);
    }
    segs
}

/// Percent-encodes each `/`-separated segment of a file path
/// (`NON_ALPHANUMERIC`: everything but ASCII letters and digits), keeping
/// the separators, so that any path reaches the server's file route as it
/// is.
pub fn encode_file_path(file_path: &str) -> (r: String)
    ensures
        r@ == encoded_file_path(file_path@),
{
    let segs = split_slash(file_path);
    let ghost enc = slash_segments(file_path@).map_values(|s: Seq<char>| percent_encoded(s));
    let mut r = String::new();
    let mut i: usize = 0;
    while i < segs.len()
        invariant
            i <= segs.len(),
            segs@.map_values(|s: String| s@) == slash_segments(file_path@),
            enc == slash_segments(file_path@).map_values(|s: Seq<char>| percent_encoded(s)),
            r@ == slash_joined(enc.take(i as int)),
        decreases segs.len() - i,
    {
        proof {
            assert(enc.take(i + 1).drop_last() =~= enc.take(i as int));
            assert(segs@.map_values(|s: String| s@)[i as int] == segs@[i as int]@);
        }
        if i > 0 {
            push_char(&mut r, '/');
        }
        let e = percent_encode_segment(segs[i].as_str());
        push_str(&mut r, e.as_str());
        proof {
            if i == 0 {
                assert(enc.take(1) =~= seq![enc[0]]);
            }
        }
        i = i + 1;
    }
    proof {
        assert(enc.take(i as int) =~= enc);
    }
    r
}

/// A client of one Capsula server: the server's base URL, from which every
/// request URL below is made. Sending a request and reading its reply is
/// the caller's part.
#[derive(Debug, Clone)]
pub struct CapsulaClient {
    base_url: String,
}

impl CapsulaClient {
    /// The server's base URL.
    pub closed spec fn base_url_spec(&self) -> Seq<char> {
        self.base_url@
    }

    /// A client of the server at `base_url`.
    pub fn new(base_url: &str) -> (c: Self)
        ensures
            c.base_url_spec() == base_url@,
    {
        CapsulaClient { base_url: copy_string(base_url) }
    }

    /// The server's base URL.
    pub fn base_url(&self) -> (r: &str)
        ensures
            r@ == self.base_url_spec(),
    {
        self.base_url.as_str()
    }
}

/// The URL of a run's detail: `<base>/api/v1/runs/<run id>`.
pub fn run_url(base_url: &str, run_id: &str) -> (r: String)
    ensures
        r@ == base_url@ + "/api/v1/runs/"@ + run_id@,
{
    let mut r = copy_string(base_url);
    push_str(&mut r, "/api/v1/runs/");
    push_str(&mut r, run_id);
    r
}

/// The URL of a captured file of a run:
/// `<base>/api/v1/runs/<run id>/files/<encoded path>`.
pub fn file_url(base_url: &str, run_id: &str, file_path: &str) -> (r: String)
    ensures
        r@ == base_url@ + "/api/v1/runs/"@ + run_id@ + "/files/"@ + encoded_file_path(file_path@),
{
    let mut r = run_url(base_url, run_id);
    push_str(&mut r, "/files/");
    let e = encode_file_path(file_path);
    push_str(&mut r, e.as_str());
    r
}

/// The URL of the vault list: `<base>/api/v1/vaults`.
pub fn vaults_url(base_url: &str) -> (r: String)
    ensures
        r@ == base_url@ + "/api/v1/vaults"@,
{
    let mut r = copy_string(base_url);
    push_str(&mut r, "/api/v1/vaults");
    r
}

/// The URL of one vault: `<base>/api/v1/vaults/<name>`.
pub fn vault_url(base_url: &str, vault_name: &str) -> (r: String)
    ensures
        r@ == base_url@ + "/api/v1/vaults/"@ + vault_name@,
{
    let mut r = copy_string(base_url);
    push_str(&mut r, "/api/v1/vaults/");
    push_str(&mut r, vault_name);
    r
}

/// The URL runs are uploaded to: `<base>/api/v1/upload`.
pub fn upload_url(base_url: &str) -> (r: String)
    ensures
        r@ == base_url@ + "/api/v1/upload"@,
{
    let mut r = copy_string(base_url);
    push_str(&mut r, "/api/v1/upload");
    r
}

/// The file name an uploaded file is sent under: the local file's name, or
/// `file` when it has none.
pub fn upload_file_name(local_path: &str) -> (r: String)
    ensures
        match file_name_spec(local_path@) {
            Some(n) => r@ == n,
            None => r@ == "file"@,
        },
{
    match file_name(local_path) {
        Some(n) => n,
        None => copy_string("file"),
    }
}

/// Errors of the client.
#[derive(Debug)]
pub enum ClientError {
    /// The HTTP request failed; its message.
    Request(String),
    /// An I/O operation failed; its message.
    Io(String),
    /// JSON (de)serialization failed; its message.
    Json(String),
    /// The server answered with a failure status; what was asked and the
    /// status.
    ServerError(String),
}

impl ClientError {
    /// The message this error displays.
    pub open spec fn message_spec(&self) -> Seq<char> {
        match self {
            ClientError::Request(m) => "HTTP request failed: "@ + m@,
            ClientError::Io(m) => "IO error: "@ + m@,
            ClientError::Json(m) => "JSON serialization error: "@ + m@,
            ClientError::ServerError(m) => "Server returned error: "@ + m@,
        }
    }

    /// The message this error displays.
    pub fn message(&self) -> (m: String)
        ensures
            m@ == self.message_spec(),
    {
        let mut m = String::new();
        match self {
            ClientError::Request(e) => {
                push_str(&mut m, "HTTP request failed: ");
                push_str(&mut m, e.as_str());
            },
            ClientError::Io(e) => {
                push_str(&mut m, "IO error: ");
                push_str(&mut m, e.as_str());
            },
            ClientError::Json(e) => {
                push_str(&mut m, "JSON serialization error: ");
                push_str(&mut m, e.as_str());
            },
            ClientError::ServerError(e) => {
                push_str(&mut m, "Server returned error: ");
                push_str(&mut m, e.as_str());
            },
        }
        m
    }
}

/// A request the client makes.
#[derive(Debug)]
pub enum ClientRequest {
    /// A run's detail.
    GetRun { run_id: String },
    /// One captured file of a run.
    DownloadFile { run_id: String, file_path: String },
    /// The list of vaults.
    ListVaults,
    /// Whether a vault exists.
    VaultExists,
    /// An upload of a run.
    Upload,
}

/// Whether an HTTP status code is a success: within 200-299.
pub open spec fn is_success_spec(status: u16) -> bool {
    200 <= status && status <= 299
}

/// Whether an HTTP status code is a success: within 200-299.
pub fn is_success(status: u16) -> (r: bool)
    ensures
        r == is_success_spec(status),
{
    200 <= status && status <= 299
}

/// What the server error says for a request answered with `status` (the
/// status as displayed, such as `404 Not Found`).
pub open spec fn server_failure_text(request: ClientRequest, status: Seq<char>) -> Seq<char> {
    match request {
        ClientRequest::GetRun { run_id } => "Failed to fetch run "@ + run_id@ + ": "@ + status,
        ClientRequest::DownloadFile { run_id, file_path } => "Failed to download file '"@ + file_path@ + "' of run "@
            + run_id@ + ": "@ + status,
        ClientRequest::ListVaults => "Failed to list vaults: "@ + status,
        ClientRequest::VaultExists => "Failed to check vault: "@ + status,
        ClientRequest::Upload => "Upload failed: "@ + status,
    }
}

/// Checks the status the server answered `request` with: a success passes,
/// anything else is a server error saying what was asked and the status.
pub fn check_status(request: &ClientRequest, status: u16, status_text: &str) -> (r: Result<(), ClientError>)
    ensures
        is_success_spec(status) ==> r is Ok,
        !is_success_spec(status) ==> (r matches Err(ClientError::ServerError(m)) && m@ == server_failure_text(
            *request,
            status_text@,
        )),
{
    if is_success(status) {
        return Ok(());
    }
    let mut m = String::new();
    match request {
        ClientRequest::GetRun { run_id } => {
            push_str(&mut m, "Failed to fetch run ");
            push_str(&mut m, run_id.as_str());
            push_str(&mut m, ": ");
        },
        ClientRequest::DownloadFile { run_id, file_path } => {
            push_str(&mut m, "Failed to download file '");
            push_str(&mut m, file_path.as_str());
            push_str(&mut m, "' of run ");
            push_str(&mut m, run_id.as_str());
            push_str(&mut m, ": ");
        },
        ClientRequest::ListVaults => push_str(&mut m, "Failed to list vaults: "),
        ClientRequest::VaultExists => push_str(&mut m, "Failed to check vault: "),
        ClientRequest::Upload => push_str(&mut m, "Upload failed: "),
    }
    push_str(&mut m, status_text);
    Err(ClientError::ServerError(m))
}

} // verus!
