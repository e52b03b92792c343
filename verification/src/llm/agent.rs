//! What the token stream of a reply hands on for speech.

use vstd::prelude::*;

verus! {

/// One item of the model's reply stream, as far as speech cares.
#[derive(Debug)]
pub enum StreamItem {
    /// A piece of reply text.
    Text(String),
    /// The end of the reply.
    Final,
    /// Anything else (tool calls, reasoning, ...).
    Other,
    /// The stream failed.
    Failed(String),
}

/// What to do with a stream item: the text or error to hand on, if any,
/// and whether the stream ends here.
pub struct StreamStep {
    pub emit: Option<Result<String, String>>,
    pub stop: bool,
}

/// Text is handed on, a failure is handed on and ends the stream, and
/// everything else is skipped.
pub fn stream_step(item: StreamItem) -> (s: StreamStep)
    ensures
        item matches StreamItem::Text(t) ==> s.emit == Some(Ok::<String, String>(t)) && !s.stop,
        item matches StreamItem::Failed(e) ==> s.emit == Some(Err::<String, String>(e)) && s.stop,
        (item is Final || item is Other) ==> s.emit is None && !s.stop,
{
    match item {
        StreamItem::Text(t) => StreamStep { emit: Some(Ok(t)), stop: false },
        StreamItem::Failed(e) => StreamStep { emit: Some(Err(e)), stop: true },
        StreamItem::Final => StreamStep { emit: None, stop: false },
        StreamItem::Other => StreamStep { emit: None, stop: false },
    }
}

} // verus!
