//! Transport framing rules and configuration.
//!
//! A transport carries whole JSON messages. On a line transport one
//! message is one line: empty lines are ignored, a line above the
//! configured byte cap fails with `MessageTooLarge`, anything else is
//! parsed and classified. Outbound, the cap gates the encoded text before
//! it is handed to the wire. The cap is a byte count and the boundary is
//! exact: a message of exactly `max_message_size` bytes passes, one more
//! byte fails.

use vstd::prelude::*;
use vstd::string::StringSliceAdditionalSpecFns;

use crate::codec::decode_text;
use crate::codec::spec_decode;
use crate::parse::is_ws;
use crate::parse::spec_parse;
use crate::rpc::JsonRpcMessage;
use crate::rpc::McpError;
use crate::rpc::MessageView;
use crate::rpc::spec_error_code_value;

verus! {

/// Transport tuning: timeouts in milliseconds (none means never time
/// out), the message byte cap, and keep-alive ping settings.
#[derive(Debug, Clone)]
pub struct TransportConfig {
    pub read_timeout_ms: Option<u64>,
    pub write_timeout_ms: Option<u64>,
    pub max_message_size: Option<usize>,
    pub ping_interval_ms: Option<u64>,
    pub ping_timeout_ms: Option<u64>,
}

impl TransportConfig {
    /// The default tuning: thirty-second reads, ten-second writes, a
    /// sixteen-mebibyte message cap, thirty-second pings with a
    /// ten-second pong deadline.
    pub fn new() -> (r: TransportConfig)
        ensures
            r.read_timeout_ms == Some(30000u64),
            r.write_timeout_ms == Some(10000u64),
            r.max_message_size == Some(16777216usize),
            r.ping_interval_ms == Some(30000u64),
            r.ping_timeout_ms == Some(10000u64),
    {
        TransportConfig {
            read_timeout_ms: Some(30000),
            write_timeout_ms: Some(10000),
            max_message_size: Some(16777216),
            ping_interval_ms: Some(30000),
            ping_timeout_ms: Some(10000),
        }
    }

    /// The same tuning with this read timeout.
    pub fn with_read_timeout(self, timeout_ms: u64) -> (r: TransportConfig)
        ensures
            r == (TransportConfig { read_timeout_ms: Some(timeout_ms), ..self }),
    {
        TransportConfig { read_timeout_ms: Some(timeout_ms), ..self }
    }

    /// The same tuning with this write timeout.
    pub fn with_write_timeout(self, timeout_ms: u64) -> (r: TransportConfig)
        ensures
            r == (TransportConfig { write_timeout_ms: Some(timeout_ms), ..self }),
    {
        TransportConfig { write_timeout_ms: Some(timeout_ms), ..self }
    }

    /// The same tuning with this message byte cap.
    pub fn with_max_message_size(self, size: usize) -> (r: TransportConfig)
        ensures
            r == (TransportConfig { max_message_size: Some(size), ..self }),
    {
        TransportConfig { max_message_size: Some(size), ..self }
    }

    /// The same tuning with this keep-alive interval.
    pub fn with_ping_interval(self, interval_ms: u64) -> (r: TransportConfig)
        ensures
            r == (TransportConfig { ping_interval_ms: Some(interval_ms), ..self }),
    {
        TransportConfig { ping_interval_ms: Some(interval_ms), ..self }
    }

    /// The same tuning with this pong deadline.
    pub fn with_ping_timeout(self, timeout_ms: u64) -> (r: TransportConfig)
        ensures
            r == (TransportConfig { ping_timeout_ms: Some(timeout_ms), ..self }),
    {
        TransportConfig { ping_timeout_ms: Some(timeout_ms), ..self }
    }

    /// The same tuning with every deadline removed: reads, writes and
    /// pings never time out.
    pub fn no_timeouts(self) -> (r: TransportConfig)
        ensures
            r.read_timeout_ms is None,
            r.write_timeout_ms is None,
            r.ping_timeout_ms is None,
            r.max_message_size == self.max_message_size,
            r.ping_interval_ms == self.ping_interval_ms,
    {
        TransportConfig {
            read_timeout_ms: None,
            write_timeout_ms: None,
            ping_timeout_ms: None,
            ..self
        }
    }
}

impl Default for TransportConfig {
    /// The default tuning, as `new` gives it.
    fn default() -> (r: TransportConfig)
        ensures
            r.read_timeout_ms == Some(30000u64),
            r.write_timeout_ms == Some(10000u64),
            r.max_message_size == Some(16777216usize),
            r.ping_interval_ms == Some(30000u64),
            r.ping_timeout_ms == Some(10000u64),
    {
        TransportConfig::new()
    }
}

/// Server-side TLS material: certificate and key locations, and an
/// optional client-certificate requirement.
#[derive(Debug, Clone)]
pub struct TlsConfig {
    pub cert_path: String,
    pub key_path: String,
    pub require_client_cert: bool,
    pub ca_path: Option<String>,
}

impl TlsConfig {
    /// TLS with a certificate and key, no client authentication.
    pub fn new(cert_path: &str, key_path: &str) -> (r: TlsConfig)
        ensures
            r.cert_path@ == cert_path@,
            r.key_path@ == key_path@,
            !r.require_client_cert,
            r.ca_path is None,
    {
        TlsConfig {
            cert_path: cert_path.to_owned(),
            key_path: key_path.to_owned(),
            require_client_cert: false,
            ca_path: None,
        }
    }

    /// The same material, now requiring client certificates signed by the
    /// given authority.
    pub fn with_client_auth(self, ca_path: &str) -> (r: TlsConfig)
        ensures
            r.cert_path@ == self.cert_path@,
            r.key_path@ == self.key_path@,
            r.require_client_cert,
            r.ca_path matches Some(p) && p@ == ca_path@,

    {
        TlsConfig {
            require_client_cert: true,
            ca_path: Some(ca_path.to_owned()),
            ..self
        }
    }
}

/// Which wire a peer speaks over.
#[derive(Debug, Clone)]
pub enum TransportType {
    Stdio,
    WebSocket { url: String },
    Http { url: String },
}

/// The index of the first character from `i` on that is not whitespace.
pub open spec fn ws_run_end(s: Seq<char>, i: int) -> int
    decreases s.len() - i,
{
    if 0 <= i < s.len() && is_ws(s[i]) {
        ws_run_end(s, i + 1)
    } else {
        i
    }
}

/// The index after the last character before `j` that is not whitespace.
pub open spec fn ws_back_start(s: Seq<char>, j: int) -> int
    decreases j,
{
    if 0 < j <= s.len() && is_ws(s[j - 1]) {
        ws_back_start(s, j - 1)
    } else {
        j
    }
}

/// The line with leading and trailing whitespace removed.
pub open spec fn spec_trim(s: Seq<char>) -> Seq<char> {
    let start = ws_run_end(s, 0);
    let end = ws_back_start(s, s.len() as int);
    if 0 <= start && start <= end && end <= s.len() {
        s.subrange(start, end)
    } else {
        Seq::<char>::empty()
    }
}

/// The UTF-8 byte length of a character sequence.
pub open spec fn byte_len(s: Seq<char>) -> nat {
    vstd::utf8::encode_utf8(s).len()
}

/// What became of one inbound line.
pub enum FrameOutcome {
    /// The line was empty but for whitespace: not a message at all.
    Ignored,
    /// The trimmed line exceeds the byte cap.
    TooLarge,
    /// The line held a JSON-RPC message.
    Decoded(JsonRpcMessage),
    /// The line held JSON that is not a JSON-RPC message, or no JSON:
    /// the protocol error that rejecting it deserves.
    Rejected(McpError),
}

/// Classifies one line read from a line transport: whitespace-only lines
/// are ignored and decode to nothing, an oversized line fails without
/// being parsed, and any other line is parsed and classified.
#[verifier::loop_isolation(false)]
pub fn read_frame(line: &str, max_message_size: Option<usize>) -> (r: FrameOutcome)
    ensures
        match r {
            FrameOutcome::Ignored => spec_trim(line@).len() == 0,
            FrameOutcome::TooLarge => spec_trim(line@).len() > 0 && (max_message_size matches Some(
                m,
            ) && byte_len(spec_trim(line@)) > m),
            FrameOutcome::Decoded(msg) => spec_trim(line@).len() > 0 && (
            max_message_size matches Some(m) ==> byte_len(spec_trim(line@)) <= m) && (spec_parse(
                spec_trim(line@),
            ) matches Some(j) && spec_decode(j) == Ok::<MessageView, int>(msg@)),
            FrameOutcome::Rejected(e) => spec_trim(line@).len() > 0 && (
            max_message_size matches Some(m) ==> byte_len(spec_trim(line@)) <= m) && ({
                ||| (spec_parse(spec_trim(line@)) is None && spec_error_code_value(e@.code)
                    == -32700)
                ||| (spec_parse(spec_trim(line@)) matches Some(j) && spec_decode(j) matches Err(c)
                    && spec_error_code_value(e@.code) == c)
            }),
        },
{
    let cs = crate::json::chars_of(line);
    let n = cs.len();
    let mut start: usize = 0;
    while start < n && crate::parse::ws_char(cs[start])
        invariant
            0 <= start <= n,
            cs@ == line@,
            n == line@.len(),
            ws_run_end(line@, 0) == ws_run_end(line@, start as int),
        decreases n - start,
    {
        start = start + 1;
    }
    assert(ws_run_end(line@, start as int) == start as int);
    let mut end: usize = n;
    while end > start && crate::parse::ws_char(cs[end - 1])
        invariant
            start <= end <= n,
            ws_back_start(line@, n as int) == ws_back_start(line@, end as int),
        decreases end,
    {
        end = end - 1;
    }
    if start >= end {
        proof {
            lemma_ws_back_at_least(line@, end as int, start as int);
        }
        return FrameOutcome::Ignored;
    }
    assert(ws_back_start(line@, end as int) == end as int);
    let trimmed: &str = line.substring_char(start, end);
    assert(trimmed@ == spec_trim(line@));
    assert(trimmed.spec_bytes() == vstd::utf8::encode_utf8(trimmed@));
    let trimmed_bytes: &[u8] = trimmed.as_bytes();
    match max_message_size {
        Some(m) => {
            if trimmed_bytes.len() > m {
                return FrameOutcome::TooLarge;
            }
        },
        None => {},
    }
    match decode_text(trimmed) {
        Ok(msg) => FrameOutcome::Decoded(msg),
        Err(e) => FrameOutcome::Rejected(e),
    }
}

/// Behind a whitespace run that reaches down to `start`, the backward
/// trim from `end` stops no earlier than `start`.
pub proof fn lemma_ws_back_at_least(s: Seq<char>, end: int, start: int)
    requires
        0 <= end <= s.len(),
        end <= start,
        ws_run_end(s, 0) == start,
    ensures
        ws_back_start(s, end) <= start,
    decreases end,
{
    if 0 < end && is_ws(s[end - 1]) {
        lemma_ws_back_at_least(s, end - 1, start);
    }
}

/// Gates one outbound message text on the byte cap and frames it as a
/// line. A text of exactly the cap passes; one byte more fails.
pub fn frame_outgoing(text: &str, max_message_size: Option<usize>) -> (r: Result<
    String,
    FramingFault,
>)
    ensures
        match r {
            Ok(line) => (max_message_size matches Some(m) ==> byte_len(text@) <= m) && line@
                == text@.push('\n'),
            Err(f) => (max_message_size matches Some(m) && byte_len(text@) > m) && f.size
                == byte_len(text@) && f.max == max_message_size->Some_0,
        },
{
    assert(text.spec_bytes() == vstd::utf8::encode_utf8(text@));
    let text_bytes: &[u8] = text.as_bytes();
    match max_message_size {
        Some(m) => {
            if text_bytes.len() > m {
                return Err(FramingFault { size: text_bytes.len(), max: m });
            }
        },
        None => {},
    }
    let mut line = text.to_owned();
    proof {
        reveal_strlit("\n");
    }
    line.append("\n");
    proof {
        assert(text@.add("\n"@) =~= text@.push('\n'));
    }
    Ok(line)
}

/// An outbound message that exceeded the byte cap: its size and the cap.
#[derive(Debug, Clone, PartialEq, Eq, Structural)]
pub struct FramingFault {
    pub size: usize,
    pub max: usize,
}

} // verus!
