//! Reading the answers of a server: its errors and its events.

use crate::adapter::error::{AdapterError, ErrorView};
use crate::encoding;
use crate::encoding::lossy;
use crate::number::{time_text, Duration};
use crate::text;
use crate::text::{
    decimal, find_from, find_in_suffix, find_is_first, has_prefix, occurs_at, opt_text, or_empty, trim,
    trim_end_char, trim_start, unsigned,
};
use vstd::prelude::*;

verus! {

/// An event of a stream.
pub enum SseEvent<T> {
    Chunk(T),
    Done,
}

/// What is read from the beginning of a buffer: the data of the next event, if the buffer holds a
/// whole one, and what is left. The data is `None` at the end mark.
pub ghost struct Popped {
    pub event: Option<Option<Seq<char>>>,
    pub rest: Seq<char>,
}

/// The data of an event.
pub open spec fn event_data(line: Seq<char>) -> Option<Seq<char>> {
    let data = trim_start(line.skip(5));
    if data == "[DONE]"@ {
        None
    } else {
        Some(data)
    }
}

/// A line of the buffer without the carriage returns at its end.
pub open spec fn event_line(buf: Seq<char>, end: int) -> Seq<char> {
    trim_end_char(buf.take(end), '\r')
}

/// Reads the next event from a buffer. Lines that hold no data are dropped; a line without its end is
/// left for later.
pub open spec fn popped(buf: Seq<char>) -> Popped
    decreases buf.len(),
{
    match find_from(buf, "\n"@, 0) {
        Some(end) => if 0 <= end < buf.len() {
            let line = event_line(buf, end);
            let rest = buf.skip(end + 1);
            if has_prefix(line, "data:"@) {
                Popped { event: Some(event_data(line)), rest }
            } else {
                popped(rest)
            }
        } else {
            Popped { event: None, rest: buf }
        },
        None => Popped { event: None, rest: buf },
    }
}

/// Takes the next event from a buffer. The result is `None` where the buffer holds no whole event,
/// and `Some(None)` at the end mark.
pub fn pop_sse_data(buf: &mut String) -> (r: Option<Option<String>>)
    ensures
        final(buf)@ == popped(old(buf)@).rest,
        match popped(old(buf)@).event {
            None => r is None,
            Some(data) => r matches Some(s) && opt_text(s) == data,
        },
{
    proof {
        reveal_strlit("\n");
        reveal_strlit("data:");
    }
    let chars = text::chars_of(buf.as_str());
    let newline = text::chars_of("\n");
    let total: usize = chars.len();
    let mut at: usize = 0;
    assert(chars@.skip(0) =~= chars@);
    loop
        invariant
            chars@ == old(buf)@,
            newline@ == "\n"@,
            newline@.len() == 1,
            "data:"@.len() == 5,
            total == chars@.len(),
            at <= total,
            popped(chars@) == popped(chars@.skip(at as int)),
        decreases total - at,
    {
        let ghost rest = chars@.skip(at as int);
        proof {
            find_in_suffix(chars@, newline@, at as int, 0);
        }
        match text::find(chars.as_slice(), newline.as_slice(), at) {
            Some(pos) => {
                let line = text::trimmed_end_char(
                    text::part(chars.as_slice(), at, pos).as_slice(),
                    '\r',
                );
                proof {
                    assert(rest.take(pos - at) =~= chars@.subrange(at as int, pos as int));
                    assert(rest.skip(pos - at + 1) =~= chars@.skip(pos + 1));
                }
                at = pos + 1;
                if text::starts_with(line.as_slice(), "data:") {
                    let data = text::trimmed_start(
                        text::part(line.as_slice(), 5, line.len()).as_slice(),
                    );
                    assert(line@.skip(5) =~= line@.subrange(5, line@.len() as int));
                    let left = text::part(chars.as_slice(), at, chars.len());
                    assert(left@ =~= chars@.skip(at as int));
                    *buf = text::string_of(left.as_slice());
                    let data_text = text::string_of(data.as_slice());
                    return Some(
                        if text::same(data_text.as_str(), "[DONE]") {
                            None
                        } else {
                            Some(data_text)
                        },
                    );
                }
            },
            None => {
                let left = text::part(chars.as_slice(), at, chars.len());
                assert(left@ =~= chars@.skip(at as int));
                *buf = text::string_of(left.as_slice());
                return None;
            },
        }
    }
}

/// The first line end of a buffer stays the first one when more text follows.
proof fn first_line_end(a: Seq<char>, more: Seq<char>)
    requires
        find_from(a, "\n"@, 0) is Some,
    ensures
        find_from(a + more, "\n"@, 0) == find_from(a, "\n"@, 0),
{
    reveal_strlit("\n");
    let nl = "\n"@;
    find_is_first(a, nl, 0);
    find_is_first(a + more, nl, 0);
    let k = find_from(a, nl, 0)->0;
    assert((a + more).subrange(k, k + 1) =~= a.subrange(k, k + 1));
    assert(occurs_at(a + more, nl, k));
    let j = find_from(a + more, nl, 0)->0;
    if j < k {
        assert((a + more).subrange(j, j + 1) =~= a.subrange(j, j + 1));
        assert(occurs_at(a, nl, j));
    }
}

/// It does not matter in which pieces a stream arrives. An event that is complete is read as it is,
/// whatever follows it; and where none is complete, what is left over and the next piece together
/// give the same as the whole.
pub proof fn pieces_do_not_matter(buf: Seq<char>, more: Seq<char>)
    ensures
        popped(buf).event is Some ==> popped(buf + more) == (Popped {
            event: popped(buf).event,
            rest: popped(buf).rest + more,
        }),
        popped(buf).event is None ==> popped(buf + more) == popped(popped(buf).rest + more),
    decreases buf.len(),
{
    reveal_strlit("\n");
    find_is_first(buf, "\n"@, 0);
    match find_from(buf, "\n"@, 0) {
        Some(end) => {
            first_line_end(buf, more);
            assert((buf + more).take(end) =~= buf.take(end));
            assert((buf + more).skip(end + 1) =~= buf.skip(end + 1) + more);
            pieces_do_not_matter(buf.skip(end + 1), more);
        },
        None => {},
    }
}

/// The wait in a `retry-after` header, as a number of seconds.
pub open spec fn retry_seconds(value: Seq<char>) -> Option<nat> {
    unsigned(trim(value), u64::MAX as nat)
}

/// The wait that a `retry-after` header asks for.
pub open spec fn asked_wait(value: Option<Seq<char>>) -> Option<Duration> {
    match value {
        Some(value) => match retry_seconds(value) {
            Some(secs) => Some(Duration { nanos: (secs * 1_000_000_000) as u128 }),
            None => None,
        },
        None => None,
    }
}

/// The wait in a `retry-after` header.
pub fn parse_retry_after(value: &str) -> (r: Option<Duration>)
    ensures
        r == asked_wait(Some(value@)),
{
    let trimmed = text::trimmed(text::chars_of(value).as_slice());
    match text::parse_unsigned(trimmed.as_slice(), u64::MAX) {
        Some(secs) => Some(Duration::from_secs(secs)),
        None => None,
    }
}

/// The error that an answer with the given status stands for. Where the body holds no message, the
/// status is the message.
pub open spec fn status_error(
    adapter: Seq<char>,
    status: u16,
    body_message: Seq<char>,
    retry_after: Option<Duration>,
    request_id: Option<Seq<char>>,
) -> ErrorView {
    let message = if body_message.len() == 0 {
        "HTTP "@ + decimal(status as nat)
    } else {
        body_message
    };
    if status == 401 {
        ErrorView::Authentication { adapter, message, request_id }
    } else if status == 403 {
        ErrorView::PermissionDenied { adapter, message, request_id }
    } else if status == 404 {
        ErrorView::NotFound { adapter, message, request_id }
    } else if status == 429 {
        ErrorView::RateLimit { adapter, message, retry_after, request_id }
    } else if 500 <= status <= 599 {
        ErrorView::ServerError { adapter, status, message, request_id }
    } else {
        ErrorView::InvalidRequest { adapter, message }
    }
}

/// The error that an answer without success stands for: its status, its headers `retry-after` and
/// `x-request-id`, and the message in its body.
pub fn error_from_response(
    adapter: &str,
    status: u16,
    body_message: Option<String>,
    retry_after: Option<String>,
    request_id: Option<String>,
) -> (r: AdapterError)
    ensures
        r@ == status_error(
            adapter@,
            status,
            or_empty(opt_text(body_message)),
            asked_wait(opt_text(retry_after)),
            opt_text(request_id),
        ),
{
    let wait = match &retry_after {
        Some(header) => parse_retry_after(header.as_str()),
        None => None,
    };
    let given = text::unwrap_or_empty(body_message);
    let message = if given.as_str().is_empty() {
        text::glue("HTTP ", text::number_text(status as u64).as_str())
    } else {
        given
    };
    if status == 401 {
        AdapterError::Authentication { adapter: adapter.to_owned(), message, request_id }
    } else if status == 403 {
        AdapterError::PermissionDenied { adapter: adapter.to_owned(), message, request_id }
    } else if status == 404 {
        AdapterError::NotFound { adapter: adapter.to_owned(), message, request_id }
    } else if status == 429 {
        AdapterError::RateLimit {
            adapter: adapter.to_owned(),
            message,
            retry_after: wait,
            request_id,
        }
    } else if 500 <= status && status <= 599 {
        AdapterError::ServerError { adapter: adapter.to_owned(), status, message, request_id }
    } else {
        AdapterError::InvalidRequest { adapter: adapter.to_owned(), message }
    }
}

/// What reading a stream brings: the data of an event, the end mark, an error, or the need for more
/// bytes.
pub enum Reading {
    Data(String),
    Done,
    Stop(AdapterError),
    More,
}

/// Reads the next event of a stream from a buffer. A whole event is read even if the request was called
/// off.
pub fn read_event(buf: &mut String, adapter: &str, cancelled: bool) -> (r: Reading)
    ensures
        final(buf)@ == popped(old(buf)@).rest,
        match popped(old(buf)@).event {
            Some(Some(data)) => r matches Reading::Data(found) && found@ == data,
            Some(None) => r is Done,
            None => if cancelled {
                r matches Reading::Stop(error) && error@ == (ErrorView::Cancelled {
                    adapter: adapter@,
                })
            } else {
                r is More
            },
        },
{
    match pop_sse_data(buf) {
        Some(Some(data)) => Reading::Data(data),
        Some(None) => Reading::Done,
        None => if cancelled {
            Reading::Stop(AdapterError::cancelled(adapter))
        } else {
            Reading::More
        },
    }
}

/// Adds bytes that came in to a buffer.
pub fn take_bytes(buf: &mut String, bytes: &[u8])
    ensures
        final(buf)@ == old(buf)@ + lossy(bytes@),
{
    buf.append(encoding::from_utf8_lossy(bytes).as_str());
}

/// The error for an event that cannot be read.
pub fn payload_error(adapter: &str, reason: &str) -> (r: AdapterError)
    ensures
        r@ == (ErrorView::Decode {
            adapter: adapter@,
            message: "invalid SSE payload: "@ + reason@,
        }),
{
    AdapterError::Decode {
        adapter: adapter.to_owned(),
        message: text::glue("invalid SSE payload: ", reason),
    }
}

/// The error for a list of models that cannot be read.
pub fn list_error(adapter: &str, reason: &str) -> (r: AdapterError)
    ensures
        r@ == (ErrorView::Decode {
            adapter: adapter@,
            message: "failed to decode model list: "@ + reason@,
        }),
{
    AdapterError::Decode {
        adapter: adapter.to_owned(),
        message: text::glue("failed to decode model list: ", reason),
    }
}

/// The error for the description of a model that cannot be read.
pub fn info_error(adapter: &str, reason: &str) -> (r: AdapterError)
    ensures
        r@ == (ErrorView::Decode {
            adapter: adapter@,
            message: "failed to decode model info: "@ + reason@,
        }),
{
    AdapterError::Decode {
        adapter: adapter.to_owned(),
        message: text::glue("failed to decode model info: ", reason),
    }
}

/// The error for a stream that fell silent for the time `idle`.
pub fn idle_error(adapter: &str, idle: Duration) -> (r: AdapterError)
    ensures
        r@ == (ErrorView::Timeout {
            adapter: adapter@,
            message: "stream idle for more than "@ + time_text(idle.nanos as nat),
        }),
{
    AdapterError::Timeout {
        adapter: adapter.to_owned(),
        message: text::glue("stream idle for more than ", idle.shown().as_str()),
    }
}

/// The error for a request without an answer for the time `limit`.
pub fn timeout_error(adapter: &str, url: &str, limit: Duration) -> (r: AdapterError)
    ensures
        r@ == (ErrorView::Timeout {
            adapter: adapter@,
            message: "request to "@ + url@ + " timed out after "@ + time_text(limit.nanos as nat),
        }),
{
    let mut message = text::glue3("request to ", url, " timed out after ");
    message.append(limit.shown().as_str());
    AdapterError::Timeout { adapter: adapter.to_owned(), message }
}

/// The error for a connection that failed.
pub fn network_error(adapter: &str, reason: &str) -> (r: AdapterError)
    ensures
        r@ == (ErrorView::Network { adapter: adapter@, message: reason@, source: reason@ }),
{
    AdapterError::Network {
        adapter: adapter.to_owned(),
        message: reason.to_owned(),
        source: reason.to_owned(),
    }
}

/// The error for a stream without events.
pub fn empty_stream_error(adapter: &str) -> (r: AdapterError)
    ensures
        r@ == (ErrorView::Stream {
            adapter: adapter@,
            message: "stream ended before any chunk"@,
        }),
{
    AdapterError::Stream {
        adapter: adapter.to_owned(),
        message: "stream ended before any chunk".to_owned(),
    }
}

} // verus!
