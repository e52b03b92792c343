//! The interaction state machine that drives the assistant.

use vstd::prelude::*;
use crate::asr::recognizer::AsrEvent;
use crate::memory::store::MemoryStore;
use crate::session::manager::{Session, SessionManager};

verus! {

/// What the assistant is doing.
#[derive(Debug, Clone, Copy, PartialEq, Eq, Structural)]
pub enum AppState {
    Idle,
    Listening,
    Processing,
    Speaking,
}

/// What to do with the next chunk of microphone audio.
#[derive(Debug, Clone, Copy, PartialEq, Eq, Structural)]
pub enum ChunkAction {
    /// Run the wake word detector on it.
    DetectWakeWord,
    /// Start listening without a wake word.
    WakeDirectly,
    /// Feed it to speech recognition.
    Recognize,
    /// Keep it for later: a reply is being prepared.
    Defer,
    /// Nothing.
    Ignore,
}

/// The state after a wake word: listening, when idle or speaking.
pub open spec fn after_wake_word(s: AppState) -> AppState {
    if s == AppState::Idle || s == AppState::Speaking {
        AppState::Listening
    } else {
        s
    }
}

/// What to do with a chunk of audio in state `s`.
pub open spec fn chunk_action_for(s: AppState, continuous: bool) -> ChunkAction {
    match s {
        AppState::Idle => if continuous {
            ChunkAction::WakeDirectly
        } else {
            ChunkAction::DetectWakeWord
        },
        AppState::Speaking => if continuous {
            ChunkAction::Ignore
        } else {
            ChunkAction::DetectWakeWord
        },
        AppState::Listening => ChunkAction::Recognize,
        AppState::Processing => ChunkAction::Defer,
    }
}

/// The text of a recognition result.
pub open spec fn event_text(e: AsrEvent) -> String {
    match e {
        AsrEvent::Partial(t) => t,
        AsrEvent::Final(t) => t,
    }
}

/// The assistant's state, its mode, its conversations and its memory.
pub struct App {
    state: AppState,
    continuous_mode: bool,
    session_manager: SessionManager,
    memory_store: MemoryStore,
}

impl App {
    /// The current state.
    pub closed spec fn state(&self) -> AppState {
        self.state
    }

    /// Whether the assistant listens without a wake word.
    pub closed spec fn continuous(&self) -> bool {
        self.continuous_mode
    }

    /// An idle assistant in wake word mode whose sessions keep
    /// `max_history` messages in context.
    pub fn new(max_history: usize) -> (a: Self)
        ensures
            a.state() == AppState::Idle,
            !a.continuous(),
            a.sessions().sessions() == Map::<Seq<char>, Session>::empty(),
            a.sessions().current() is None,
            a.sessions().history_limit() == max_history,
            a.sessions().ids_agree(),
            a.memory().short_context().len() == 0,
            a.memory().short_preferences() == Map::<Seq<char>, String>::empty(),
            a.memory().short_entities().len() == 0,
            a.memory().long_preferences() == Map::<Seq<char>, String>::empty(),
            a.memory().long_preference_entries().len() == 0,
            a.memory().summaries().len() == 0,
            a.memory().profile().name is None,
            a.memory().profile().language@.len() == 0,
            a.memory().profile().timezone@.len() == 0,
            a.memory().profile().interests@.len() == 0,
    {
        App {
            state: AppState::Idle,
            continuous_mode: false,
            session_manager: SessionManager::new(max_history),
            memory_store: MemoryStore::new(),
        }
    }

    /// Turns listening without a wake word on or off.
    pub fn set_continuous_mode(&mut self, enabled: bool)
        ensures
            final(self).continuous() == enabled,
            final(self).state() == old(self).state(),
    {
        self.continuous_mode = enabled;
    }

    /// Whether the assistant listens without a wake word.
    pub fn is_continuous_mode(&self) -> (b: bool)
        ensures
            b == self.continuous(),
    {
        self.continuous_mode
    }

    /// A wake word was heard: start listening when idle or speaking. Tells
    /// whether the state changed.
    pub fn on_wake_word(&mut self) -> (woke: bool)
        ensures
            final(self).state() == after_wake_word(old(self).state()),
            woke == (old(self).state() == AppState::Idle || old(self).state() == AppState::Speaking),
            final(self).continuous() == old(self).continuous(),
    {
        if self.state == AppState::Idle || self.state == AppState::Speaking {
            self.state = AppState::Listening;
            true
        } else {
            false
        }
    }

    /// The user interrupted: listen again, whatever was going on.
    pub fn on_barge_in(&mut self)
        ensures
            final(self).state() == AppState::Listening,
            final(self).continuous() == old(self).continuous(),
    {
        self.state = AppState::Listening;
    }

    /// Takes a recognition result: while listening, its text is returned
    /// and the assistant goes on to prepare a reply; in any other state
    /// nothing happens (and no result should be asked for).
    pub fn process_audio(&mut self, event: Option<AsrEvent>) -> (text: Option<String>)
        ensures
            old(self).state() != AppState::Listening ==> text is None && final(self).state()
                == old(self).state(),
            old(self).state() == AppState::Listening && event is None ==> text is None && final(self).state() == AppState::Listening,
            old(self).state() == AppState::Listening && event is Some ==> text == Some(
                event_text(event->0),
            ) && final(self).state() == AppState::Processing,
            final(self).continuous() == old(self).continuous(),
    {
        if self.state != AppState::Listening {
            return None;
        }
        match event {
            Some(e) => {
                self.state = AppState::Processing;
                Some(e.into_text())
            },
            None => None,
        }
    }

    /// The current state.
    pub fn get_state(&self) -> (s: AppState)
        ensures
            s == self.state(),
    {
        self.state
    }

    /// Sets the state.
    pub fn set_state(&mut self, state: AppState)
        ensures
            final(self).state() == state,
            final(self).continuous() == old(self).continuous(),
    {
        self.state = state;
    }

    /// What to do with the next chunk of microphone audio.
    pub fn chunk_action(&self) -> (a: ChunkAction)
        ensures
            a == chunk_action_for(self.state(), self.continuous()),
            (a == ChunkAction::Recognize) == (self.state() == AppState::Listening),
            (a == ChunkAction::Defer) == (self.state() == AppState::Processing),
    {
        match self.state {
            AppState::Idle => if self.continuous_mode {
                ChunkAction::WakeDirectly
            } else {
                ChunkAction::DetectWakeWord
            },
            AppState::Speaking => if self.continuous_mode {
                ChunkAction::Ignore
            } else {
                ChunkAction::DetectWakeWord
            },
            AppState::Listening => ChunkAction::Recognize,
            AppState::Processing => ChunkAction::Defer,
        }
    }

    /// The reply is ready (speak it) or failed (go idle).
    pub fn on_reply(&mut self, succeeded: bool)
        ensures
            final(self).state() == if succeeded {
                AppState::Speaking
            } else {
                AppState::Idle
            },
            final(self).continuous() == old(self).continuous(),
    {
        self.state = if succeeded {
            AppState::Speaking
        } else {
            AppState::Idle
        };
    }

    /// The conversations.
    pub closed spec fn sessions(&self) -> SessionManager {
        self.session_manager
    }

    /// The memory.
    pub closed spec fn memory(&self) -> MemoryStore {
        self.memory_store
    }

    /// The conversations, to read or change in place; the rest of the
    /// assistant stays as it is.
    pub fn session_manager(&mut self) -> (m: &mut SessionManager)
        ensures
            *m == old(self).sessions(),
            final(self).sessions() == *final(m),
            final(self).memory() == old(self).memory(),
            final(self).state() == old(self).state(),
            final(self).continuous() == old(self).continuous(),
    {
        &mut self.session_manager
    }

    /// The memory, to read or change in place; the rest of the assistant
    /// stays as it is.
    pub fn memory_store(&mut self) -> (m: &mut MemoryStore)
        ensures
            *m == old(self).memory(),
            final(self).memory() == *final(m),
            final(self).sessions() == old(self).sessions(),
            final(self).state() == old(self).state(),
            final(self).continuous() == old(self).continuous(),
    {
        &mut self.memory_store
    }
}

/// A chunk goes to recognition exactly while listening, and is deferred
/// exactly while the reply is being made, whether or not the assistant
/// listens without a wake word. The mode only decides what happens to a
/// chunk while idle or speaking: without it the chunk is searched for the
/// wake word; with it, an idle assistant wakes at once and a speaking one
/// ignores the chunk.
pub proof fn law_chunk_routing(s: AppState, continuous: bool)
    ensures
        (chunk_action_for(s, continuous) == ChunkAction::Recognize) == (s == AppState::Listening),
        (chunk_action_for(s, continuous) == ChunkAction::Defer) == (s == AppState::Processing),
        (s == AppState::Listening || s == AppState::Processing) ==> chunk_action_for(s, true)
            == chunk_action_for(s, false),
        (chunk_action_for(s, continuous) == ChunkAction::DetectWakeWord) == (!continuous && (s
            == AppState::Idle || s == AppState::Speaking)),
        (chunk_action_for(s, continuous) == ChunkAction::WakeDirectly) == (continuous && s
            == AppState::Idle),
        (chunk_action_for(s, continuous) == ChunkAction::Ignore) == (continuous && s
            == AppState::Speaking),
{
}

/// A wake word never interrupts the preparation of a reply, and changes
/// nothing while listening.
pub proof fn law_wake_word_keeps_processing(s: AppState)
    ensures
        s == AppState::Processing ==> after_wake_word(s) == AppState::Processing,
        s == AppState::Listening ==> after_wake_word(s) == AppState::Listening,
{
}

} // verus!
