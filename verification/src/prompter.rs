//! Obtaining a value from whoever is in front of the program.

use vstd::prelude::*;
use vstd::string::*;

verus! {

/// A question put to the user.
#[derive(Clone, Debug, PartialEq, Eq)]
pub struct Prompt {
    pub label: String,
    pub default: Option<String>,
}

/// The capability to ask for a value. An interactive implementation shows
/// the prompt and waits for the reply; a headless one answers at once.
pub trait Prompter {
    /// The reply to a prompt, or `None` when no reply is given.
    fn prompt(&self, prompt: &Prompt) -> Option<String>;
}

/// The characters of an optional string.
pub open spec fn opt_chars(s: Option<String>) -> Option<Seq<char>> {
    match s {
        Some(x) => Some(x@),
        None => None,
    }
}

/// Answers every prompt with the same value, or with the prompt's default
/// when it was given none.
#[derive(Debug)]
pub struct TestPrompter {
    value: Option<String>,
}

impl TestPrompter {
    /// The configured answer.
    pub closed spec fn value(&self) -> Option<Seq<char>> {
        opt_chars(self.value)
    }

    /// What this prompter replies to a prompt with the given default.
    pub open spec fn reply(&self, default: Option<Seq<char>>) -> Option<Seq<char>> {
        match self.value() {
            Some(v) => Some(v),
            None => default,
        }
    }

    /// A prompter that replies `value` to every prompt, or falls back to
    /// each prompt's default when `value` is `None`.
    pub fn new(value: Option<String>) -> (p: Self)
        ensures
            p.value() == opt_chars(value),
    {
        TestPrompter { value }
    }
}

impl Default for TestPrompter {
    fn default() -> (p: Self)
        ensures
            p.value() is None,
    {
        TestPrompter { value: None }
    }
}

impl Prompter for TestPrompter {
    /// Replies with the configured value; without one, with the prompt's
    /// default; without either, not at all.
    fn prompt(&self, prompt: &Prompt) -> (r: Option<String>)
        ensures
            opt_chars(r) == self.reply(opt_chars(prompt.default)),
    {
        match &self.value {
            Some(v) => Some(v.clone()),
            None => match &prompt.default {
                Some(d) => Some(d.clone()),
                None => None,
            },
        }
    }
}

} // verus!
