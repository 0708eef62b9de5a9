//! The interfaces of the engine's collaborators.
use vstd::prelude::*;
use crate::error::Error;
use crate::text::summary_prompt;

verus! {

/// Text generation.
pub trait LlmPort {
    /// A completion of `prompt` of at most `max_tokens` tokens.
    fn generate(&self, prompt: &str, max_tokens: usize) -> Result<String, Error>;

    /// A concise summary of `text`: by default a 256-token completion of
    /// [`summary_prompt`].
    fn summarize(&self, text: &str) -> Result<String, Error> {
        let prompt = summary_prompt(text);
        self.generate(prompt.as_str(), 256)
    }
}

/// Text embedding.
pub trait EmbeddingPort {
    /// The fixed-point embedding of `text`, of [`EmbeddingPort::dimension`]
    /// components.
    fn embed(&self, text: &str) -> Result<Vec<i32>, Error>;

    /// The embeddings of `texts`, in order; the first failure is returned.
    fn embed_batch(&self, texts: &Vec<String>) -> (r: Result<Vec<Vec<i32>>, Error>)
        ensures
            r matches Ok(v) ==> v@.len() == texts@.len(),
    {
        let mut results: Vec<Vec<i32>> = Vec::new();
        let mut i: usize = 0;
        while i < texts.len()
            invariant
                i <= texts@.len(),
                results@.len() == i,
            decreases texts.len() - i,
        {
            match self.embed(texts[i].as_str()) {
                Ok(v) => results.push(v),
                Err(e) => return Err(e),
            }
            i = i + 1;
        }
        Ok(results)
    }

    /// The number of components of every embedding.
    fn dimension(&self) -> usize;

    /// The name of the model or provider.
    fn provider_name(&self) -> String;
}

/// The short-term interaction queue.
pub trait BufferPort {
    fn push(&mut self, interaction: crate::interaction::Interaction) -> Result<(), Error>;

    fn pop_batch(&mut self, size: usize) -> Result<Vec<crate::interaction::Interaction>, Error>;

    fn peek(&self, size: usize) -> Result<Vec<crate::interaction::Interaction>, Error>;

    fn len(&self) -> Result<usize, Error>;

    fn is_empty(&self) -> Result<bool, Error> {
        match self.len() {
            Ok(n) => Ok(n == 0),
            Err(e) => Err(e),
        }
    }

    fn clear(&mut self) -> Result<(), Error>;
}

/// Microphone and speaker.
pub trait AudioPort {
    /// Raw PCM bytes recorded for `duration_ms` milliseconds.
    fn listen(&self, duration_ms: u64) -> Result<Vec<u8>, Error>;

    fn speak(&self, text: &str) -> Result<(), Error>;

    fn play_audio(&self, audio: &[u8]) -> Result<(), Error>;
}

/// Camera.
pub trait VisionPort {
    /// One raw frame from the default camera.
    fn capture_frame(&self) -> Result<Vec<u8>, Error>;

    /// Whether a person is in view.
    fn detect_presence(&self) -> Result<bool, Error>;
}

/// Threat levels reported by the immune system.
#[derive(Debug, Clone, Copy, PartialEq, Eq, Structural)]
pub enum ThreatLevel {
    Safe,
    Suspicious,
    Malicious,
    Critical,
}

/// A threat observed on the host.
#[derive(Debug, Clone)]
pub struct ThreatReport {
    pub source_id: String,
    pub threat_type: String,
    pub level: ThreatLevel,
    pub description: String,
    pub timestamp: i64,
}

/// Self-protection of the process and the host.
pub trait ImmunePort {
    /// Whether the running program is intact.
    fn check_integrity(&self) -> Result<bool, Error>;

    /// The threat level of a process by name.
    fn scan_process(&self, process_name: &str) -> Result<ThreatLevel, Error>;

    fn report_threat(&self, report: ThreatReport) -> Result<(), Error>;
}

/// The active window of the desktop.
#[derive(Debug)]
pub struct WindowInfo {
    pub title: String,
    pub process_name: String,
    pub is_visible: bool,
    /// `(x, y, width, height)`.
    pub bounds: (i32, i32, u32, u32),
}

/// A user input event.
#[derive(Debug, Clone)]
pub enum InputEvent {
    KeyPress(String),
    MouseClick(i32, i32),
    Scroll(i32, i32),
}

} // verus!
