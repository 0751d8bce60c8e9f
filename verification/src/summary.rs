//! Thread summaries by the local language model: the engine, its status,
//! and the prompt it is given.

use crate::ical::{byte_piece, byte_range, cuts_at, utf8_len};
use crate::text::{chars_of, push_str, string_of, trim, trim_chars};
use vstd::prelude::*;

verus! {

/// The state of the local language model engine.
#[derive(Debug)]
pub enum EngineStatus {
    Uninitialized,
    Loading { model_id: String },
    Ready { model_id: String, model_size_bytes: u64 },
    Error(String),
}

/// A summary can be asked for only once a model is ready.
pub fn require_ready(status: &EngineStatus) -> (r: Result<(), String>)
    ensures
        r is Ok <==> status is Ready,
        r matches Err(e) ==> e@ == "No model loaded. Download and load a model in Settings > AI."@,
{
    match status {
        EngineStatus::Ready { .. } => Ok(()),
        _ => Err("No model loaded. Download and load a model in Settings > AI.".to_owned()),
    }
}

/// What the engine holds: nothing, or a loaded model with its file size.
#[derive(Debug)]
pub enum EngineState {
    Idle,
    Loaded { model_id: String, model_size_bytes: u64 },
}

/// The local language model engine.
pub struct LlmEngine {
    state: EngineState,
}

impl View for LlmEngine {
    /// The loaded model's name and size, none when idle.
    type V = Option<(Seq<char>, u64)>;

    closed spec fn view(&self) -> Option<(Seq<char>, u64)> {
        match self.state {
            EngineState::Idle => None,
            EngineState::Loaded { model_id, model_size_bytes } => Some((model_id@, model_size_bytes)),
        }
    }
}

/// The text the engine answers a generation with while a model is loaded.
pub open spec fn generated_text() -> Seq<char> {
    "Summary placeholder — LLM inference will be wired in the next task."@
}

impl LlmEngine {
    /// An engine with no model loaded.
    pub fn new() -> (r: Self)
        ensures
            r@ is None,
    {
        LlmEngine { state: EngineState::Idle }
    }

    /// The engine's status: ready with the loaded model, or uninitialized.
    pub fn get_status(&self) -> (r: EngineStatus)
        ensures
            self@ is None ==> r is Uninitialized,
            self@ matches Some((id, size)) ==> (r matches EngineStatus::Ready {
                model_id,
                model_size_bytes,
            } && model_id@ == id && model_size_bytes == size),
    {
        match &self.state {
            EngineState::Idle => EngineStatus::Uninitialized,
            EngineState::Loaded { model_id, model_size_bytes } => EngineStatus::Ready {
                model_id: model_id.clone(),
                model_size_bytes: *model_size_bytes,
            },
        }
    }

    /// Loads the model file `model_filename`, found at `path` when
    /// `exists`, of `file_size` bytes when its size could be read (0
    /// otherwise). A missing file is refused and the engine left as it was.
    pub fn load_model(&mut self, model_filename: &str, path: &str, exists: bool, file_size: Option<u64>) -> (r:
        Result<(), String>)
        ensures
            r is Ok <==> exists,
            r matches Err(e) ==> e@ == "Model file not found: "@ + path@ && final(self)@ == old(self)@,
            r is Ok ==> final(self)@ == Some(
                (
                    model_filename@,
                    match file_size {
                        Some(n) => n,
                        None => 0u64,
                    },
                ),
            ),
    {
        if !exists {
            let mut msg = chars_of("Model file not found: ");
            push_str(&mut msg, path);
            return Err(string_of(msg.as_slice()));
        }
        let size: u64 = match file_size {
            Some(n) => n,
            None => 0,
        };
        self.state = EngineState::Loaded { model_id: model_filename.to_owned(), model_size_bytes: size };
        Ok(())
    }

    /// Unloads the model.
    pub fn unload(&mut self)
        ensures
            final(self)@ is None,
    {
        self.state = EngineState::Idle;
    }

    /// Generates text for a prompt: refused while no model is loaded.
    pub fn generate(&self, prompt: &str) -> (r: Result<String, String>)
        ensures
            r is Ok <==> self@ is Some,
            r matches Ok(t) ==> t@ == generated_text(),
            r matches Err(e) ==> e@ == "No model loaded"@,
    {
        match &self.state {
            EngineState::Idle => Err("No model loaded".to_owned()),
            EngineState::Loaded { .. } => Ok(
                "Summary placeholder — LLM inference will be wired in the next task.".to_owned(),
            ),
        }
    }
}

/// The part of a message body put in the prompt: its first 2000 bytes.
pub open spec fn clipped_body(body: Seq<char>) -> Seq<char> {
    if utf8_len(body) > 2000 {
        byte_piece(body, 0, 2000)
    } else {
        body
    }
}

/// Whether a body can be clipped at 2000 bytes without cutting a
/// character.
pub open spec fn clip_ok(body: Seq<char>) -> bool {
    utf8_len(body) > 2000 ==> cuts_at(body, 2000)
}

/// The prompt text for the messages (sender, body) so far.
pub open spec fn prompt_messages(ms: Seq<(Seq<char>, Seq<char>)>) -> Seq<char>
    decreases ms.len(),
{
    if ms.len() == 0 {
        Seq::empty()
    } else {
        prompt_messages(ms.drop_last()) + "From: "@ + ms.last().0 + "\n---\n"@ + clipped_body(
            ms.last().1,
        ) + "\n\n"@
    }
}

/// The summarization prompt for a thread's messages, oldest first.
pub open spec fn summary_prompt_text(ms: Seq<(Seq<char>, Seq<char>)>) -> Seq<char> {
    "<start_of_turn>user\nSummarize the following email thread in 2-3 concise sentences. Focus on key points, decisions, and action items.\n\n"@
        + prompt_messages(ms) + "<end_of_turn>\n<start_of_turn>model\n"@
}

pub open spec fn message_views(v: Seq<(String, String)>) -> Seq<(Seq<char>, Seq<char>)> {
    v.map_values(|m: (String, String)| (m.0@, m.1@))
}

/// Builds the prompt that asks for a summary of a thread; a thread without
/// messages has none.
pub fn summary_prompt(messages: &Vec<(String, String)>) -> (r: Result<String, String>)
    requires
        forall|i: int| 0 <= i < messages@.len() ==> clip_ok(#[trigger] messages@[i].1@),
    ensures
        messages@.len() == 0 ==> (r matches Err(e) && e@ == "No messages in thread"@),
        messages@.len() > 0 ==> (r matches Ok(p) && p@ == summary_prompt_text(
            message_views(messages@),
        )),
{
    if messages.len() == 0 {
        return Err("No messages in thread".to_owned());
    }
    let ghost mv = message_views(messages@);
    let mut out = chars_of(
        "<start_of_turn>user\nSummarize the following email thread in 2-3 concise sentences. Focus on key points, decisions, and action items.\n\n",
    );
    let ghost start = out@;
    let mut i: usize = 0;
    while i < messages.len()
        invariant
            i <= messages@.len(),
            mv == message_views(messages@),
            forall|k: int| 0 <= k < messages@.len() ==> clip_ok(#[trigger] messages@[k].1@),
            out@ == start + prompt_messages(mv.take(i as int)),
        decreases messages.len() - i,
    {
        assert(mv.take(i + 1).drop_last() =~= mv.take(i as int));
        assert(mv.take(i + 1).last() == (messages@[i as int].0@, messages@[i as int].1@));
        let (sender, body) = &messages[i];
        let ghost before = out@;
        push_str(&mut out, "From: ");
        push_str(&mut out, sender.as_str());
        push_str(&mut out, "\n---\n");
        let b = body.as_str();
        assert(clip_ok(messages@[i as int].1@));
        if b.len() > 2000 {
            proof {
                vstd::utf8::encode_utf8_valid_utf8(b@);
            }
            push_str(&mut out, byte_range(b, 0, 2000).as_str());
        } else {
            push_str(&mut out, b);
        }
        push_str(&mut out, "\n\n");
        assert(out@ =~= before + ("From: "@ + sender@ + "\n---\n"@ + clipped_body(body@) + "\n\n"@));
        i = i + 1;
    }
    assert(mv.take(mv.len() as int) =~= mv);
    push_str(&mut out, "<end_of_turn>\n<start_of_turn>model\n");
    Ok(string_of(out.as_slice()))
}

/// The summary shown: the model's answer without surrounding whitespace.
pub fn clean_summary(answer: &str) -> (r: String)
    ensures
        r@ == trim(answer@),
{
    string_of(trim_chars(chars_of(answer).as_slice()).as_slice())
}

} // verus!
