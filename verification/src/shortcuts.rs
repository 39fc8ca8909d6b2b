//! Shortcut commands: each is a thin alias that rewrites its arguments
//! into one ask invocation. Building that invocation — the query text and
//! every flag — is verified here; performing it (talking to an assistant
//! backend and printing) is the caller's business.

use vstd::prelude::*;

use crate::strutil::{join_with, push_str, spec_join, str_views};

verus! {

/// An ask invocation: the question or task, and how to run and render it.
#[derive(Debug, Clone)]
pub struct AskCommand {
    /// The question or task description
    pub query: Vec<String>,
    /// Execute the suggested commands (with confirmation)
    pub execute: bool,
    /// Skip confirmation prompts
    pub auto_confirm: bool,
    /// Use local AI only (no cloud)
    pub local_only: bool,
    /// Output format: text, json, commands
    pub format: String,
    /// Verbose output
    pub verbose: bool,
}

/// The single query string of an ask invocation built from a prefix and
/// joined argument words.
pub open spec fn shortcut_query(prefix: Seq<char>, words: Seq<Seq<char>>) -> Seq<char> {
    prefix + spec_join(words, " "@)
}

/// Build the query vector holding `prefix` followed by the words joined
/// with single spaces.
fn build_query(prefix: &str, words: &Vec<String>) -> (q: Vec<String>)
    ensures
        q@.len() == 1,
        q@[0]@ == shortcut_query(prefix@, str_views(words@)),
{
    let mut text = String::new();
    push_str(&mut text, prefix);
    let joined = join_with(words, " ");
    push_str(&mut text, joined.as_str());
    let mut q: Vec<String> = Vec::new();
    q.push(text);
    q
}

/// Install packages or software using natural language.
#[derive(Debug, Clone)]
pub struct InstallCommand {
    /// What to install (natural language description)
    pub description: Vec<String>,
    /// Skip confirmation prompts
    pub auto_confirm: bool,
    /// Use local AI only
    pub local_only: bool,
    /// Verbose output
    pub verbose: bool,
}

impl InstallCommand {
    /// The ask invocation this shortcut stands for: `install` followed by
    /// the description, executed with the shortcut's flags. The caller
    /// performs it.
    pub fn run(&self) -> (a: AskCommand)
        ensures
            a.query@.len() == 1,
            a.query@[0]@ == shortcut_query("install "@, str_views(self.description@)),
            a.execute == true,
            a.auto_confirm == self.auto_confirm,
            a.local_only == self.local_only,
            a.format@ == "text"@,
            a.verbose == self.verbose,
    {
        AskCommand {
            query: build_query("install ", &self.description),
            execute: true,
            auto_confirm: self.auto_confirm,
            local_only: self.local_only,
            format: "text".to_owned(),
            verbose: self.verbose,
        }
    }
}

/// Setup or configure systems using natural language.
#[derive(Debug, Clone)]
pub struct SetupCommand {
    /// What to setup (natural language description)
    pub description: Vec<String>,
    /// Skip confirmation prompts
    pub auto_confirm: bool,
    /// Use local AI only
    pub local_only: bool,
    /// Verbose output
    pub verbose: bool,
}

impl SetupCommand {
    /// The ask invocation this shortcut stands for: `setup` followed by
    /// the description, executed with the shortcut's flags. The caller
    /// performs it.
    pub fn run(&self) -> (a: AskCommand)
        ensures
            a.query@.len() == 1,
            a.query@[0]@ == shortcut_query("setup "@, str_views(self.description@)),
            a.execute == true,
            a.auto_confirm == self.auto_confirm,
            a.local_only == self.local_only,
            a.format@ == "text"@,
            a.verbose == self.verbose,
    {
        AskCommand {
            query: build_query("setup ", &self.description),
            execute: true,
            auto_confirm: self.auto_confirm,
            local_only: self.local_only,
            format: "text".to_owned(),
            verbose: self.verbose,
        }
    }
}

/// Ask questions about the system.
#[derive(Debug, Clone)]
pub struct WhatCommand {
    /// Question about the system
    pub question: Vec<String>,
    /// Output format: text, json
    pub format: String,
    /// Use local AI only
    pub local_only: bool,
    /// Verbose output
    pub verbose: bool,
}

impl WhatCommand {
    /// The ask invocation this shortcut stands for: `what` followed by the
    /// question, answered without executing anything. The caller performs
    /// it.
    pub fn run(&self) -> (a: AskCommand)
        ensures
            a.query@.len() == 1,
            a.query@[0]@ == shortcut_query("what "@, str_views(self.question@)),
            a.execute == false,
            a.auto_confirm == false,
            a.local_only == self.local_only,
            a.format@ == self.format@,
            a.verbose == self.verbose,
    {
        AskCommand {
            query: build_query("what ", &self.question),
            execute: false,
            auto_confirm: false,
            local_only: self.local_only,
            format: self.format.clone(),
            verbose: self.verbose,
        }
    }
}

/// Fix errors or problems using natural language.
#[derive(Debug, Clone)]
pub struct FixCommand {
    /// Error message or problem description
    pub error: Vec<String>,
    /// Skip confirmation prompts
    pub auto_confirm: bool,
    /// Use local AI only
    pub local_only: bool,
    /// Verbose output
    pub verbose: bool,
}

impl FixCommand {
    /// The ask invocation this shortcut stands for: `fix this error:`
    /// followed by the error text, executed with the shortcut's flags.
    /// The caller performs it.
    pub fn run(&self) -> (a: AskCommand)
        ensures
            a.query@.len() == 1,
            a.query@[0]@ == shortcut_query("fix this error: "@, str_views(self.error@)),
            a.execute == true,
            a.auto_confirm == self.auto_confirm,
            a.local_only == self.local_only,
            a.format@ == "text"@,
            a.verbose == self.verbose,
    {
        AskCommand {
            query: build_query("fix this error: ", &self.error),
            execute: true,
            auto_confirm: self.auto_confirm,
            local_only: self.local_only,
            format: "text".to_owned(),
            verbose: self.verbose,
        }
    }
}

/// Explain a command, file, or concept.
#[derive(Debug, Clone)]
pub struct ExplainCommand {
    /// What to explain
    pub subject: Vec<String>,
    /// Output format: text, json
    pub format: String,
    /// Use local AI only
    pub local_only: bool,
    /// Verbose output
    pub verbose: bool,
}

impl ExplainCommand {
    /// The ask invocation this shortcut stands for: `explain` followed by
    /// the subject, answered without executing anything. The caller
    /// performs it.
    pub fn run(&self) -> (a: AskCommand)
        ensures
            a.query@.len() == 1,
            a.query@[0]@ == shortcut_query("explain "@, str_views(self.subject@)),
            a.execute == false,
            a.auto_confirm == false,
            a.local_only == self.local_only,
            a.format@ == self.format@,
            a.verbose == self.verbose,
    {
        AskCommand {
            query: build_query("explain ", &self.subject),
            execute: false,
            auto_confirm: false,
            local_only: self.local_only,
            format: self.format.clone(),
            verbose: self.verbose,
        }
    }
}

} // verus!
