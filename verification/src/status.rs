//! The status reporter.
//!
//! Scan workers report leveled messages; the reporter batches their text and
//! a periodic flush moves the batch into a render-facing buffer, truncating
//! that buffer when it grows past a threshold.  The reporter only ever
//! receives text from the engine; the consumer reads `text_to_render`.

use vstd::prelude::*;
use vstd::string::StringExecFns;

verus! {

/// A message for the status reporter: a severity and its text.
#[derive(Clone, Debug)]
pub enum StatusMessage {
    Info(String),
    Warn(String),
    Error(String),
}

impl StatusMessage {
    /// The text carried by the message, whatever its severity.
    pub open spec fn text(self) -> Seq<char> {
        match self {
            StatusMessage::Info(s) => s@,
            StatusMessage::Warn(s) => s@,
            StatusMessage::Error(s) => s@,
        }
    }

    /// True of informational messages.
    pub open spec fn is_info(self) -> bool {
        self is Info
    }

    /// True of warnings.
    pub open spec fn is_warn(self) -> bool {
        self is Warn
    }

    /// True of errors.
    pub open spec fn is_err(self) -> bool {
        self is Error
    }
}

/// The shared status buffers: workers append to `text_to_batch`; a periodic
/// flush moves the batch into `text_to_render` for the consumer.
#[derive(Debug)]
pub struct StatusInfo {
    pub text_to_batch: String,
    pub text_to_render: String,
    pub scroll_on_next_render: bool,
}

impl Default for StatusInfo {
    /// Empty buffers and no pending scroll.
    fn default() -> (r: Self)
        ensures
            r.text_to_batch@ == Seq::<char>::empty(),
            r.text_to_render@ == Seq::<char>::empty(),
            r.scroll_on_next_render == false,
    {
        StatusInfo { text_to_batch: String::new(), text_to_render: String::new(), scroll_on_next_render: false }
    }
}

/// The render buffer is reset when it holds more than this many bytes at
/// flush time.
pub const RENDER_TEXT_CAP: usize = 75000;

/// True when the render buffer holds more than [`RENDER_TEXT_CAP`] bytes
/// of UTF-8 text.
pub open spec fn render_over_cap(s: Seq<char>) -> bool {
    vstd::utf8::encode_utf8(s).len() as usize > RENDER_TEXT_CAP
}

/// One line of status text: `timestamp: text`, newline-terminated.
pub open spec fn log_line(timestamp: Seq<char>, msg: StatusMessage) -> Seq<char> {
    timestamp + seq![':', ' '] + msg.text() + seq!['\n']
}

/// Appends one message to the batch buffer, prefixed by the timestamp the
/// caller took when the message was produced.
pub fn log_to_status_generic(status: &mut StatusInfo, timestamp: &str, msg: StatusMessage)
    ensures
        final(status).text_to_batch@ == old(status).text_to_batch@ + log_line(
            timestamp@,
            msg,
        ),
        final(status).text_to_render == old(status).text_to_render,
        final(status).scroll_on_next_render == old(status).scroll_on_next_render,
{
    status.text_to_batch.append(timestamp);
    status.text_to_batch.append(": ");
    match &msg {
        StatusMessage::Info(s) => status.text_to_batch.append(s.as_str()),
        StatusMessage::Warn(s) => status.text_to_batch.append(s.as_str()),
        StatusMessage::Error(s) => status.text_to_batch.append(s.as_str()),
    }
    status.text_to_batch.append("\n");
    proof {
        reveal_strlit(": ");
        reveal_strlit("\n");
        assert(status.text_to_batch@ =~= old(status).text_to_batch@ + log_line(timestamp@, msg));
    }
}

/// One tick of the periodic flush: if any text is batched, move it to the
/// render buffer (resetting that buffer first when it holds more than
/// [`RENDER_TEXT_CAP`] bytes) and ask the consumer to scroll.  An empty
/// batch leaves everything untouched.
pub fn flush_batch(status: &mut StatusInfo)
    ensures
        old(status).text_to_batch@.len() == 0 ==> *final(status) == *old(status),
        old(status).text_to_batch@.len() > 0 ==> {
            &&& final(status).text_to_batch@ == Seq::<char>::empty()
            &&& final(status).scroll_on_next_render == true
            &&& final(status).text_to_render@ == if render_over_cap(
                old(status).text_to_render@,
            ) {
                old(status).text_to_batch@
            } else {
                old(status).text_to_render@ + old(status).text_to_batch@
            }
        },
{
    if !status.text_to_batch.as_str().is_empty() {
        if status.text_to_render.as_str().len() > RENDER_TEXT_CAP {
            status.text_to_render = String::new();
        }
        status.text_to_render.append(status.text_to_batch.clone().as_str());
        status.scroll_on_next_render = true;
        status.text_to_batch = String::new();
        proof {
            assert(status.text_to_batch@ =~= Seq::<char>::empty());
            assert(status.text_to_render@ =~= if render_over_cap(old(status).text_to_render@) {
                old(status).text_to_batch@
            } else {
                old(status).text_to_render@ + old(status).text_to_batch@
            });
        }
    }
}

} // verus!
