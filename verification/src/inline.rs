//! Inline query answers: `@botname <query>` in any chat, answered with a
//! list of results.

use vstd::prelude::*;

verus! {

/// One result in an inline query answer.
#[derive(Debug, Clone)]
pub enum InlineResult {
    /// A text card; tapping it sends `message` into the chat.
    Article {
        /// Unique id among this answer's results (1-64 bytes).
        id: String,
        /// The bold headline.
        title: String,
        /// The subtitle line, when any.
        description: Option<String>,
        /// The text sent when the card is tapped.
        message: String,
    },
}

/// The outcome of an inline query: the results to show.
#[derive(Debug, Clone)]
pub struct InlineAnswer {
    pub results: Vec<InlineResult>,
}

impl InlineAnswer {
    /// An empty answer (no results shown).
    pub fn new() -> (a: InlineAnswer)
        ensures
            a.results@.len() == 0,
    {
        InlineAnswer { results: Vec::new() }
    }

    /// Append one result.
    pub fn push(&mut self, result: InlineResult) -> (r: &mut Self)
        ensures
            r.results@ == old(self).results@.push(result),
            *final(self) == *final(r),
    {
        self.results.push(result);
        self
    }

    /// Append one result, consuming the answer (for builder-style chains).
    pub fn with(self, result: InlineResult) -> (a: InlineAnswer)
        ensures
            a.results@ == self.results@.push(result),
    {
        let mut a = self;
        a.results.push(result);
        a
    }
}

impl Default for InlineAnswer {
    fn default() -> (a: InlineAnswer)
        ensures
            a.results@.len() == 0,
    {
        InlineAnswer::new()
    }
}

} // verus!
