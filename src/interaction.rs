//! Interactions: the records queued in the short-term buffer.
use vstd::prelude::*;
use crate::sys::{fresh_id, now_seconds};

verus! {

/// The mathematical value of an [`Interaction`].
pub struct InteractionView {
    pub id: Seq<char>,
    pub user_input: Seq<char>,
    pub ai_response: Seq<char>,
    pub timestamp: i64,
    pub session_id: Seq<char>,
    pub processed: bool,
}

/// One exchange between the user and the agent.
#[derive(Debug, Clone)]
pub struct Interaction {
    pub id: String,
    pub user_input: String,
    pub ai_response: String,
    /// Seconds since the Unix epoch.
    pub timestamp: i64,
    /// Session tag; may be empty.
    pub session_id: String,
    pub processed: bool,
}

impl View for Interaction {
    type V = InteractionView;

    open spec fn view(&self) -> InteractionView {
        InteractionView {
            id: self.id@,
            user_input: self.user_input@,
            ai_response: self.ai_response@,
            timestamp: self.timestamp,
            session_id: self.session_id@,
            processed: self.processed,
        }
    }
}

impl Interaction {
    /// A fresh, unprocessed interaction with no session, stamped now.
    pub fn new(user_input: String, ai_response: String) -> (r: Self)
        ensures
            r@.id.len() == 36,
            r@.user_input == user_input@,
            r@.ai_response == ai_response@,
            r@.session_id.len() == 0,
            !r@.processed,
    {
        Interaction {
            id: fresh_id(),
            user_input,
            ai_response,
            timestamp: now_seconds(),
            session_id: String::new(),
            processed: false,
        }
    }

    /// The interaction tagged with a session.
    pub fn with_session(self, session_id: String) -> (r: Self)
        ensures
            r@ == (InteractionView { session_id: session_id@, ..self@ }),
    {
        let mut i = self;
        i.session_id = session_id;
        i
    }

    /// Marks the interaction as processed.
    pub fn mark_processed(&mut self)
        ensures
            final(self)@ == (InteractionView { processed: true, ..old(self)@ }),
    {
        self.processed = true;
    }

    /// A field-by-field copy of the interaction.
    pub fn duplicate(&self) -> (r: Self)
        ensures
            r@ == self@,
    {
        Interaction {
            id: self.id.clone(),
            user_input: self.user_input.clone(),
            ai_response: self.ai_response.clone(),
            timestamp: self.timestamp,
            session_id: self.session_id.clone(),
            processed: self.processed,
        }
    }
}

} // verus!
