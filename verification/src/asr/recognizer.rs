//! Recognition results and the settings of a streaming recognizer.

use vstd::prelude::*;

verus! {

/// A recognition result: text heard so far, or the text of a finished
/// utterance.
#[derive(Debug)]
pub enum AsrEvent {
    Partial(String),
    Final(String),
}

impl AsrEvent {
    /// The recognized text.
    pub fn into_text(self) -> (s: String)
        ensures
            s == match self {
                AsrEvent::Partial(t) => t,
                AsrEvent::Final(t) => t,
            },
    {
        match self {
            AsrEvent::Partial(t) => t,
            AsrEvent::Final(t) => t,
        }
    }
}

/// What a decoded recognizer result is reported as: nothing when its text
/// is empty, a final result at an endpoint (after which the recognizer is
/// reset), else a partial one.
pub fn classify_result(text: String, is_endpoint: bool) -> (e: Option<AsrEvent>)
    ensures
        text@.len() == 0 ==> e is None,
        text@.len() > 0 && is_endpoint ==> e == Some(AsrEvent::Final(text)),
        text@.len() > 0 && !is_endpoint ==> e == Some(AsrEvent::Partial(text)),
{
    if text.as_str().is_empty() {
        None
    } else if is_endpoint {
        Some(AsrEvent::Final(text))
    } else {
        Some(AsrEvent::Partial(text))
    }
}

/// The settings of a streaming recognizer, gathered before building it.
#[derive(Debug)]
pub struct AsrRecognizerBuilder {
    encoder: String,
    decoder: String,
    joiner: String,
    tokens: String,
    provider: String,
    chunk_size: usize,
    sample_rate: i32,
}

impl View for AsrRecognizerBuilder {
    /// Encoder, decoder, joiner and tokens paths, provider, chunk size and
    /// sample rate.
    type V = (Seq<char>, Seq<char>, Seq<char>, Seq<char>, Seq<char>, usize, i32);

    closed spec fn view(&self) -> Self::V {
        (
            self.encoder@,
            self.decoder@,
            self.joiner@,
            self.tokens@,
            self.provider@,
            self.chunk_size,
            self.sample_rate,
        )
    }
}

impl AsrRecognizerBuilder {
    /// No model paths yet, the `cpu` provider, chunks of 3200 samples at
    /// 16000 Hz.
    pub fn new() -> (b: Self)
        ensures
            b@ == (
                Seq::<char>::empty(),
                Seq::<char>::empty(),
                Seq::<char>::empty(),
                Seq::<char>::empty(),
                "cpu"@,
                3200usize,
                16000i32,
            ),
    {
        AsrRecognizerBuilder {
            encoder: String::new(),
            decoder: String::new(),
            joiner: String::new(),
            tokens: String::new(),
            provider: String::from_str("cpu"),
            chunk_size: 3200,
            sample_rate: 16000,
        }
    }

    /// Sets the encoder model path.
    pub fn encoder(self, path: &str) -> (b: Self)
        ensures
            b@ == (path@, self@.1, self@.2, self@.3, self@.4, self@.5, self@.6),
    {
        AsrRecognizerBuilder { encoder: String::from_str(path), ..self }
    }

    /// Sets the decoder model path.
    pub fn decoder(self, path: &str) -> (b: Self)
        ensures
            b@ == (self@.0, path@, self@.2, self@.3, self@.4, self@.5, self@.6),
    {
        AsrRecognizerBuilder { decoder: String::from_str(path), ..self }
    }

    /// Sets the joiner model path.
    pub fn joiner(self, path: &str) -> (b: Self)
        ensures
            b@ == (self@.0, self@.1, path@, self@.3, self@.4, self@.5, self@.6),
    {
        AsrRecognizerBuilder { joiner: String::from_str(path), ..self }
    }

    /// Sets the tokens file path.
    pub fn tokens(self, path: &str) -> (b: Self)
        ensures
            b@ == (self@.0, self@.1, self@.2, path@, self@.4, self@.5, self@.6),
    {
        AsrRecognizerBuilder { tokens: String::from_str(path), ..self }
    }

    /// Sets the execution provider.
    pub fn provider(self, p: &str) -> (b: Self)
        ensures
            b@ == (self@.0, self@.1, self@.2, self@.3, p@, self@.5, self@.6),
    {
        AsrRecognizerBuilder { provider: String::from_str(p), ..self }
    }

    /// Sets the chunk size in samples.
    pub fn chunk_size(self, size: usize) -> (b: Self)
        ensures
            b@ == (self@.0, self@.1, self@.2, self@.3, self@.4, size, self@.6),
    {
        AsrRecognizerBuilder { chunk_size: size, ..self }
    }

    /// Sets the sample rate.
    pub fn sample_rate(self, sr: i32) -> (b: Self)
        ensures
            b@ == (self@.0, self@.1, self@.2, self@.3, self@.4, self@.5, sr),
    {
        AsrRecognizerBuilder { sample_rate: sr, ..self }
    }

    /// The encoder model path.
    pub fn encoder_path(&self) -> (s: &str)
        ensures
            s@ == self@.0,
    {
        self.encoder.as_str()
    }

    /// The decoder model path.
    pub fn decoder_path(&self) -> (s: &str)
        ensures
            s@ == self@.1,
    {
        self.decoder.as_str()
    }

    /// The joiner model path.
    pub fn joiner_path(&self) -> (s: &str)
        ensures
            s@ == self@.2,
    {
        self.joiner.as_str()
    }

    /// The tokens file path.
    pub fn tokens_path(&self) -> (s: &str)
        ensures
            s@ == self@.3,
    {
        self.tokens.as_str()
    }

    /// The execution provider.
    pub fn provider_name(&self) -> (s: &str)
        ensures
            s@ == self@.4,
    {
        self.provider.as_str()
    }

    /// The chunk size in samples.
    pub fn chunk_size_value(&self) -> (n: usize)
        ensures
            n == self@.5,
    {
        self.chunk_size
    }

    /// The sample rate.
    pub fn sample_rate_value(&self) -> (n: i32)
        ensures
            n == self@.6,
    {
        self.sample_rate
    }
}

impl Default for AsrRecognizerBuilder {
    fn default() -> (b: Self)
        ensures
            b@ == (
                Seq::<char>::empty(),
                Seq::<char>::empty(),
                Seq::<char>::empty(),
                Seq::<char>::empty(),
                "cpu"@,
                3200usize,
                16000i32,
            ),
    {
        Self::new()
    }
}

} // verus!
