//! Keyword-based intent matching for terminal commands: a fixed table of
//! patterns, each a set of keywords, a command template and a priority.
//! A query matches a pattern when every keyword occurs inside some word of
//! the lowercased query; among matching patterns the first one of highest
//! priority wins.

use vstd::prelude::*;

use crate::strutil::{
    contains_substring, has_substring, is_alnum_char, lower_of, split_whitespace_words, split_ws,
    str_eq, str_views,
};

verus! {

/// Mathematical model of one pattern.
#[verifier::ext_equal]
pub ghost struct PatternView {
    pub keywords: Seq<Seq<char>>,
    pub command: Seq<char>,
    pub description: Seq<char>,
    pub needs_name: bool,
    pub priority: int,
}

/// One intent pattern: keywords to find in the query, the command template
/// they map to, and a priority for ranking.
pub(crate) struct Pattern {
    pub keywords: Vec<String>,
    pub command_template: String,
    pub description: String,
    pub needs_name: bool,
    pub priority: u8,
}

impl View for Pattern {
    type V = PatternView;

    closed spec fn view(&self) -> PatternView {
        PatternView {
            keywords: str_views(self.keywords@),
            command: self.command_template@,
            description: self.description@,
            needs_name: self.needs_name,
            priority: self.priority as int,
        }
    }
}

/// Mathematical model of a match result.
#[verifier::ext_equal]
pub ghost struct PatternMatchView {
    pub command: Seq<char>,
    pub description: Seq<char>,
    pub confidence: int,
    pub needs_name: bool,
}

/// Result of pattern matching. `confidence` is the winning pattern's
/// priority on a zero-to-ten scale.
#[derive(Debug, Clone)]
pub struct PatternMatch {
    pub command: String,
    pub description: String,
    pub confidence: u8,
    pub needs_name: bool,
}

impl View for PatternMatch {
    type V = PatternMatchView;

    open spec fn view(&self) -> PatternMatchView {
        PatternMatchView {
            command: self.command@,
            description: self.description@,
            confidence: self.confidence as int,
            needs_name: self.needs_name,
        }
    }
}

/// Pattern matcher holding the fixed pattern table.
pub struct PatternMatcher {
    patterns: Vec<Pattern>,
}

impl PatternMatcher {
    /// The pattern table.
    pub closed spec fn spec_patterns(&self) -> Seq<PatternView> {
        self.patterns@.map_values(|p: Pattern| p@)
    }
}

/// Build a keyword list of one word.
fn kw1(a: &str) -> (r: Vec<String>)
    ensures
        str_views(r@) == seq![a@],
{
    let mut v: Vec<String> = Vec::new();
    v.push(a.to_owned());
    proof {
        assert(str_views(v@) =~= seq![a@]);
    }
    v
}

/// Build a keyword list of two words.
fn kw2(a: &str, b: &str) -> (r: Vec<String>)
    ensures
        str_views(r@) == seq![a@, b@],
{
    let mut v: Vec<String> = Vec::new();
    v.push(a.to_owned());
    v.push(b.to_owned());
    proof {
        assert(str_views(v@) =~= seq![a@, b@]);
    }
    v
}

/// Build a keyword list of three words.
fn kw3(a: &str, b: &str, c: &str) -> (r: Vec<String>)
    ensures
        str_views(r@) == seq![a@, b@, c@],
{
    let mut v: Vec<String> = Vec::new();
    v.push(a.to_owned());
    v.push(b.to_owned());
    v.push(c.to_owned());
    proof {
        assert(str_views(v@) =~= seq![a@, b@, c@]);
    }
    v
}

/// Build one pattern.
fn pat(keywords: Vec<String>, command: &str, description: &str, needs_name: bool, priority: u8) -> (p:
    Pattern)
    ensures
        p@ == (PatternView {
            keywords: str_views(keywords@),
            command: command@,
            description: description@,
            needs_name,
            priority: priority as int,
        }),
{
    Pattern {
        keywords,
        command_template: command.to_owned(),
        description: description.to_owned(),
        needs_name,
        priority,
    }
}

/// The fixed pattern table: project creation, snapshot handling and
/// template listing intents.
pub open spec fn default_patterns() -> Seq<PatternView> {
    seq![
        PatternView {
            keywords: seq!["create"@, "python"@, "project"@],
            command: "cx new python {name}"@,
            description: "Create a Python project"@,
            needs_name: true,
            priority: 10,
        },
        PatternView {
            keywords: seq!["create"@, "python"@],
            command: "cx new python {name}"@,
            description: "Create a Python project"@,
            needs_name: true,
            priority: 8,
        },
        PatternView {
            keywords: seq!["python"@, "project"@],
            command: "cx new python {name}"@,
            description: "Create a Python project"@,
            needs_name: true,
            priority: 7,
        },
        PatternView {
            keywords: seq!["setup"@, "python"@],
            command: "cx new python {name}"@,
            description: "Set up a Python project"@,
            needs_name: true,
            priority: 8,
        },
        PatternView {
            keywords: seq!["create"@, "react"@, "app"@],
            command: "cx new react {name}"@,
            description: "Create a React app"@,
            needs_name: true,
            priority: 10,
        },
        PatternView {
            keywords: seq!["create"@, "react"@],
            command: "cx new react {name}"@,
            description: "Create a React app"@,
            needs_name: true,
            priority: 8,
        },
        PatternView {
            keywords: seq!["react"@, "app"@],
            command: "cx new react {name}"@,
            description: "Create a React app"@,
            needs_name: true,
            priority: 7,
        },
        PatternView {
            keywords: seq!["create"@, "next"@, "app"@],
            command: "cx new nextjs {name}"@,
            description: "Create a Next.js app"@,
            needs_name: true,
            priority: 10,
        },
        PatternView {
            keywords: seq!["nextjs"@, "project"@],
            command: "cx new nextjs {name}"@,
            description: "Create a Next.js app"@,
            needs_name: true,
            priority: 8,
        },
        PatternView {
            keywords: seq!["create"@, "node"@, "project"@],
            command: "cx new node {name}"@,
            description: "Create a Node.js project"@,
            needs_name: true,
            priority: 10,
        },
        PatternView {
            keywords: seq!["node"@, "project"@],
            command: "cx new node {name}"@,
            description: "Create a Node.js project"@,
            needs_name: true,
            priority: 7,
        },
        PatternView {
            keywords: seq!["create"@, "api"@, "backend"@],
            command: "cx new fastapi {name}"@,
            description: "Create a FastAPI backend"@,
            needs_name: true,
            priority: 10,
        },
        PatternView {
            keywords: seq!["fastapi"@, "project"@],
            command: "cx new fastapi {name}"@,
            description: "Create a FastAPI project"@,
            needs_name: true,
            priority: 9,
        },
        PatternView {
            keywords: seq!["create"@, "api"@],
            command: "cx new fastapi {name}"@,
            description: "Create an API project"@,
            needs_name: true,
            priority: 7,
        },
        PatternView {
            keywords: seq!["create"@, "express"@],
            command: "cx new express {name}"@,
            description: "Create an Express.js backend"@,
            needs_name: true,
            priority: 9,
        },
        PatternView {
            keywords: seq!["create"@, "docker"@],
            command: "cx new docker {name}"@,
            description: "Create a Docker project"@,
            needs_name: true,
            priority: 9,
        },
        PatternView {
            keywords: seq!["dockerize"@],
            command: "cx new docker {name}"@,
            description: "Create Docker configuration"@,
            needs_name: true,
            priority: 8,
        },
        PatternView {
            keywords: seq!["create"@, "go"@, "project"@],
            command: "cx new go {name}"@,
            description: "Create a Go project"@,
            needs_name: true,
            priority: 10,
        },
        PatternView {
            keywords: seq!["golang"@, "project"@],
            command: "cx new go {name}"@,
            description: "Create a Go project"@,
            needs_name: true,
            priority: 8,
        },
        PatternView {
            keywords: seq!["create"@, "rust"@, "project"@],
            command: "cx new rust {name}"@,
            description: "Create a Rust project"@,
            needs_name: true,
            priority: 10,
        },
        PatternView {
            keywords: seq!["rust"@, "project"@],
            command: "cx new rust {name}"@,
            description: "Create a Rust project"@,
            needs_name: true,
            priority: 8,
        },
        PatternView {
            keywords: seq!["create"@, "database"@],
            command: "cx new db {name}"@,
            description: "Create a database project"@,
            needs_name: true,
            priority: 8,
        },
        PatternView {
            keywords: seq!["sqlite"@, "project"@],
            command: "cx new db {name}"@,
            description: "Create a SQLite project"@,
            needs_name: true,
            priority: 9,
        },
        PatternView {
            keywords: seq!["save"@, "work"@],
            command: "cx save {name}"@,
            description: "Save workspace snapshot"@,
            needs_name: true,
            priority: 9,
        },
        PatternView {
            keywords: seq!["save"@, "project"@],
            command: "cx save {name}"@,
            description: "Save project snapshot"@,
            needs_name: true,
            priority: 9,
        },
        PatternView {
            keywords: seq!["snapshot"@],
            command: "cx save {name}"@,
            description: "Create a snapshot"@,
            needs_name: true,
            priority: 7,
        },
        PatternView {
            keywords: seq!["backup"@],
            command: "cx save {name}"@,
            description: "Backup current directory"@,
            needs_name: true,
            priority: 7,
        },
        PatternView {
            keywords: seq!["list"@, "snapshots"@],
            command: "cx snapshots -l"@,
            description: "List all snapshots"@,
            needs_name: false,
            priority: 10,
        },
        PatternView {
            keywords: seq!["show"@, "snapshots"@],
            command: "cx snapshots -l"@,
            description: "Show all snapshots"@,
            needs_name: false,
            priority: 9,
        },
        PatternView {
            keywords: seq!["restore"@, "snapshot"@],
            command: "cx restore {name}"@,
            description: "Restore a snapshot"@,
            needs_name: true,
            priority: 10,
        },
        PatternView {
            keywords: seq!["restore"@, "project"@],
            command: "cx restore {name}"@,
            description: "Restore project from snapshot"@,
            needs_name: true,
            priority: 9,
        },
        PatternView {
            keywords: seq!["list"@, "templates"@],
            command: "cx new --list"@,
            description: "List available project templates"@,
            needs_name: false,
            priority: 10,
        },
        PatternView {
            keywords: seq!["what"@, "templates"@],
            command: "cx new --list"@,
            description: "Show available templates"@,
            needs_name: false,
            priority: 9,
        },
        PatternView {
            keywords: seq!["available"@, "projects"@],
            command: "cx new --list"@,
            description: "Show available project types"@,
            needs_name: false,
            priority: 8,
        },
    ]
}

impl PatternMatcher {
    /// Build the matcher with the fixed pattern table.
    pub fn new() -> (m: Self)
        ensures
            m.spec_patterns() == default_patterns(),
    {
        let mut patterns: Vec<Pattern> = Vec::new();
        patterns.push(pat(kw3("create", "python", "project"), "cx new python {name}", "Create a Python project", true, 10));
        patterns.push(pat(kw2("create", "python"), "cx new python {name}", "Create a Python project", true, 8));
        patterns.push(pat(kw2("python", "project"), "cx new python {name}", "Create a Python project", true, 7));
        patterns.push(pat(kw2("setup", "python"), "cx new python {name}", "Set up a Python project", true, 8));
        patterns.push(pat(kw3("create", "react", "app"), "cx new react {name}", "Create a React app", true, 10));
        patterns.push(pat(kw2("create", "react"), "cx new react {name}", "Create a React app", true, 8));
        patterns.push(pat(kw2("react", "app"), "cx new react {name}", "Create a React app", true, 7));
        patterns.push(pat(kw3("create", "next", "app"), "cx new nextjs {name}", "Create a Next.js app", true, 10));
        patterns.push(pat(kw2("nextjs", "project"), "cx new nextjs {name}", "Create a Next.js app", true, 8));
        patterns.push(pat(kw3("create", "node", "project"), "cx new node {name}", "Create a Node.js project", true, 10));
        patterns.push(pat(kw2("node", "project"), "cx new node {name}", "Create a Node.js project", true, 7));
        patterns.push(pat(kw3("create", "api", "backend"), "cx new fastapi {name}", "Create a FastAPI backend", true, 10));
        patterns.push(pat(kw2("fastapi", "project"), "cx new fastapi {name}", "Create a FastAPI project", true, 9));
        patterns.push(pat(kw2("create", "api"), "cx new fastapi {name}", "Create an API project", true, 7));
        patterns.push(pat(kw2("create", "express"), "cx new express {name}", "Create an Express.js backend", true, 9));
        patterns.push(pat(kw2("create", "docker"), "cx new docker {name}", "Create a Docker project", true, 9));
        patterns.push(pat(kw1("dockerize"), "cx new docker {name}", "Create Docker configuration", true, 8));
        patterns.push(pat(kw3("create", "go", "project"), "cx new go {name}", "Create a Go project", true, 10));
        patterns.push(pat(kw2("golang", "project"), "cx new go {name}", "Create a Go project", true, 8));
        patterns.push(pat(kw3("create", "rust", "project"), "cx new rust {name}", "Create a Rust project", true, 10));
        patterns.push(pat(kw2("rust", "project"), "cx new rust {name}", "Create a Rust project", true, 8));
        patterns.push(pat(kw2("create", "database"), "cx new db {name}", "Create a database project", true, 8));
        patterns.push(pat(kw2("sqlite", "project"), "cx new db {name}", "Create a SQLite project", true, 9));
        patterns.push(pat(kw2("save", "work"), "cx save {name}", "Save workspace snapshot", true, 9));
        patterns.push(pat(kw2("save", "project"), "cx save {name}", "Save project snapshot", true, 9));
        patterns.push(pat(kw1("snapshot"), "cx save {name}", "Create a snapshot", true, 7));
        patterns.push(pat(kw1("backup"), "cx save {name}", "Backup current directory", true, 7));
        patterns.push(pat(kw2("list", "snapshots"), "cx snapshots -l", "List all snapshots", false, 10));
        patterns.push(pat(kw2("show", "snapshots"), "cx snapshots -l", "Show all snapshots", false, 9));
        patterns.push(pat(kw2("restore", "snapshot"), "cx restore {name}", "Restore a snapshot", true, 10));
        patterns.push(pat(kw2("restore", "project"), "cx restore {name}", "Restore project from snapshot", true, 9));
        patterns.push(pat(kw2("list", "templates"), "cx new --list", "List available project templates", false, 10));
        patterns.push(pat(kw2("what", "templates"), "cx new --list", "Show available templates", false, 9));
        patterns.push(pat(kw2("available", "projects"), "cx new --list", "Show available project types", false, 8));
        let m = PatternMatcher { patterns };
        proof {
            assert(m.spec_patterns() =~= default_patterns());
        }
        m
    }
}

impl Default for PatternMatcher {
    /// The default matcher holds the fixed pattern table.
    fn default() -> (m: Self)
        ensures
            m.spec_patterns() == default_patterns(),
    {
        PatternMatcher::new()
    }
}

/// Whether keyword `kw` occurs inside some word of `ws`.
pub open spec fn kw_matched(ws: Seq<Seq<char>>, kw: Seq<char>) -> bool {
    exists|t: int| 0 <= t < ws.len() && has_substring(#[trigger] ws[t], kw)
}

/// Whether every keyword of pattern `p` occurs in the words `ws`.
pub open spec fn spec_pattern_matches(p: PatternView, ws: Seq<Seq<char>>) -> bool {
    forall|j: int| 0 <= j < p.keywords.len() ==> kw_matched(ws, #[trigger] p.keywords[j])
}

/// The index of the winning pattern from `i` on, given the best index seen
/// so far: a matching pattern wins when no best exists yet or its priority
/// strictly exceeds the best's, so the earliest pattern of highest priority
/// is kept.
pub open spec fn spec_best_from(
    ps: Seq<PatternView>,
    ws: Seq<Seq<char>>,
    i: int,
    best: Option<int>,
) -> Option<int>
    decreases ps.len() - i,
{
    if i < 0 || i >= ps.len() {
        best
    } else {
        let better = spec_pattern_matches(ps[i], ws) && match best {
            None => true,
            Some(b) => ps[i].priority > ps[b].priority,
        };
        spec_best_from(ps, ws, i + 1, if better { Some(i) } else { best })
    }
}

/// The match result for words `ws` against patterns `ps`: the winning
/// pattern's command, description and priority, or nothing when no pattern
/// matches.
pub open spec fn spec_match_query(ps: Seq<PatternView>, ws: Seq<Seq<char>>) -> Option<
    PatternMatchView,
> {
    match spec_best_from(ps, ws, 0, None) {
        None => None,
        Some(b) => Some(
            PatternMatchView {
                command: ps[b].command,
                description: ps[b].description,
                confidence: ps[b].priority,
                needs_name: ps[b].needs_name,
            },
        ),
    }
}

/// Whether keyword `kw` occurs inside some word of `words`.
fn keyword_in_words(words: &Vec<String>, kw: &str) -> (r: bool)
    ensures
        r == kw_matched(str_views(words@), kw@),
{
    let n = words.len();
    let mut t: usize = 0;
    while t < n
        invariant
            n == words@.len(),
            t <= n,
            forall|k: int| 0 <= k < t ==> !has_substring(#[trigger] str_views(words@)[k], kw@),
        decreases n - t,
    {
        if contains_substring(words[t].as_str(), kw) {
            proof {
                assert(has_substring(str_views(words@)[t as int], kw@));
            }
            return true;
        }
        t = t + 1;
    }
    false
}

/// Whether every keyword of `p` occurs in `words`.
fn pattern_matches(p: &Pattern, words: &Vec<String>) -> (r: bool)
    ensures
        r == spec_pattern_matches(p@, str_views(words@)),
{
    let n = p.keywords.len();
    let mut j: usize = 0;
    while j < n
        invariant
            n == p.keywords@.len(),
            j <= n,
            forall|k: int| 0 <= k < j ==> kw_matched(str_views(words@), #[trigger] p@.keywords[k]),
        decreases n - j,
    {
        if !keyword_in_words(words, p.keywords[j].as_str()) {
            proof {
                assert(!kw_matched(str_views(words@), p@.keywords[j as int]));
            }
            return false;
        }
        j = j + 1;
    }
    true
}

impl PatternMatcher {
    /// Match a query against the pattern table: the query is lowercased and
    /// split into words; the earliest matching pattern of highest priority
    /// wins.
    pub fn match_query(&self, query: &str) -> (r: Option<PatternMatch>)
        ensures
            (match r {
                Some(m) => spec_match_query(self.spec_patterns(), split_ws(lower_of(query@)))
                    == Some(m@),
                None => spec_match_query(self.spec_patterns(), split_ws(lower_of(query@))) is None,
            }),
    {
        let query_lower = query.to_lowercase();
        let words = split_whitespace_words(query_lower.as_str());
        let ghost ps = self.spec_patterns();
        let ghost ws = str_views(words@);
        let n = self.patterns.len();
        let mut best: Option<usize> = None;
        let mut i: usize = 0;
        while i < n
            invariant
                n == self.patterns@.len(),
                ps == self.spec_patterns(),
                ws == str_views(words@),
                i <= n,
                (match best {
                    Some(b) => b < i,
                    None => true,
                }),
                spec_best_from(ps, ws, 0, None) == spec_best_from(
                    ps,
                    ws,
                    i as int,
                    match best {
                        Some(b) => Some(b as int),
                        None => None,
                    },
                ),
            decreases n - i,
        {
            let matched = pattern_matches(&self.patterns[i], &words);
            let better = matched && match best {
                None => true,
                Some(b) => self.patterns[i].priority > self.patterns[b].priority,
            };
            if better {
                best = Some(i);
            }
            i = i + 1;
        }
        match best {
            Some(b) => {
                let p = &self.patterns[b];
                Some(
                    PatternMatch {
                        command: p.command_template.clone(),
                        description: p.description.clone(),
                        confidence: p.priority,
                        needs_name: p.needs_name,
                    },
                )
            },
            None => None,
        }
    }
}

/// Whether `c` may stand in a project name: alphanumeric, dash or
/// underscore.
pub open spec fn is_name_char(c: char) -> bool {
    is_alnum_char(c) || c == '-' || c == '_'
}

/// `s` without its leading `c` characters.
pub open spec fn trim_lead_char(s: Seq<char>, c: char) -> Seq<char>
    decreases s.len(),
{
    if s.len() > 0 && s[0] == c {
        trim_lead_char(s.drop_first(), c)
    } else {
        s
    }
}

/// `s` without its trailing `c` characters.
pub open spec fn trim_trail_char(s: Seq<char>, c: char) -> Seq<char>
    decreases s.len(),
{
    if s.len() > 0 && s.last() == c {
        trim_trail_char(s.drop_last(), c)
    } else {
        s
    }
}

/// `s` without its leading and trailing `c` characters.
pub open spec fn trim_char(s: Seq<char>, c: char) -> Seq<char> {
    trim_trail_char(trim_lead_char(s, c), c)
}

/// `s` without leading characters that cannot stand in a name.
pub open spec fn trim_lead_nonname(s: Seq<char>) -> Seq<char>
    decreases s.len(),
{
    if s.len() > 0 && !is_name_char(s[0]) {
        trim_lead_nonname(s.drop_first())
    } else {
        s
    }
}

/// `s` without trailing characters that cannot stand in a name.
pub open spec fn trim_trail_nonname(s: Seq<char>) -> Seq<char>
    decreases s.len(),
{
    if s.len() > 0 && !is_name_char(s.last()) {
        trim_trail_nonname(s.drop_last())
    } else {
        s
    }
}

/// A word stripped of surrounding punctuation.
pub open spec fn clean_word(w: Seq<char>) -> Seq<char> {
    trim_trail_nonname(trim_lead_nonname(w))
}

/// The position of the first occurrence of `c` in `s`.
pub open spec fn find_char(s: Seq<char>, c: char) -> Option<int>
    decreases s.len(),
{
    if s.len() == 0 {
        None
    } else if s[0] == c {
        Some(0)
    } else {
        match find_char(s.drop_first(), c) {
            Some(i) => Some(i + 1),
            None => None,
        }
    }
}

/// Whether every character of `w` may stand in a name.
pub open spec fn all_name_chars(w: Seq<char>) -> bool {
    forall|k: int| 0 <= k < w.len() ==> is_name_char(#[trigger] w[k])
}

/// Whether `w` is too common a word to be a project name.
pub open spec fn is_common(w: Seq<char>) -> bool {
    ||| w == "a"@
    ||| w == "an"@
    ||| w == "the"@
    ||| w == "create"@
    ||| w == "make"@
    ||| w == "new"@
    ||| w == "project"@
    ||| w == "app"@
    ||| w == "with"@
    ||| w == "for"@
    ||| w == "my"@
    ||| w == "please"@
    ||| w == "can"@
    ||| w == "you"@
    ||| w == "i"@
    ||| w == "want"@
    ||| w == "need"@
    ||| w == "setup"@
    ||| w == "set"@
    ||| w == "up"@
    ||| w == "build"@
    ||| w == "start"@
    ||| w == "init"@
    ||| w == "initialize"@
}

/// The name named by a `called` or `named` marker: the word after the
/// first such marker that has one, stripped of quotes.
pub open spec fn called_name(ws: Seq<Seq<char>>, i: int) -> Option<Seq<char>>
    decreases ws.len() - i,
{
    if i < 0 || i >= ws.len() {
        None
    } else if (ws[i] == "called"@ || ws[i] == "named"@) && i + 1 < ws.len() {
        Some(trim_char(trim_char(ws[i + 1], '"'), '\''))
    } else {
        called_name(ws, i + 1)
    }
}

/// The text between the first pair of double quotes.
pub open spec fn quoted_name(q: Seq<char>) -> Option<Seq<char>> {
    match find_char(q, '"') {
        None => None,
        Some(st) => match find_char(q.skip(st + 1), '"') {
            None => None,
            Some(e) => Some(q.skip(st + 1).take(e)),
        },
    }
}

/// The last word, scanning from index `i` towards the front, that cleans
/// to a plausible project name: non-empty, not a common word, made of name
/// characters only.
pub open spec fn last_name(ws: Seq<Seq<char>>, i: int) -> Option<Seq<char>>
    decreases i + 1,
{
    if i < 0 || i >= ws.len() {
        None
    } else {
        let cw = clean_word(ws[i]);
        if cw.len() > 0 && !is_common(lower_of(cw)) && all_name_chars(cw) {
            Some(cw)
        } else {
            last_name(ws, i - 1)
        }
    }
}

/// The project name suggested by a query: the word after a `called` or
/// `named` marker, else the first double-quoted text, else the last word
/// that looks like a name.
pub open spec fn spec_extract_name(q: Seq<char>) -> Option<Seq<char>> {
    match called_name(split_ws(q), 0) {
        Some(x) => Some(x),
        None => match quoted_name(q) {
            Some(x) => Some(x),
            None => last_name(split_ws(q), split_ws(q).len() - 1),
        },
    }
}

/// Whether `c` may stand in a project name, executable form.
fn is_name_char_exec(c: char) -> (r: bool)
    ensures
        r == is_name_char(c),
{
    c.is_alphanumeric() || c == '-' || c == '_'
}

/// Strip every leading and trailing `c` from `s`.
fn trim_matches_char(s: &str, c: char) -> (r: String)
    ensures
        r@ == trim_char(s@, c),
{
    let n = s.unicode_len();
    let mut lo: usize = 0;
    proof {
        assert(s@.skip(0) =~= s@);
    }
    while lo < n && s.get_char(lo) == c
        invariant
            n == s@.len(),
            lo <= n,
            trim_lead_char(s@, c) == trim_lead_char(s@.skip(lo as int), c),
        decreases n - lo,
    {
        proof {
            assert(s@.skip(lo as int)[0] == s@[lo as int]);
            assert(s@.skip(lo as int).drop_first() =~= s@.skip(lo + 1));
        }
        lo = lo + 1;
    }
    proof {
        if lo < n {
            assert(s@.skip(lo as int)[0] == s@[lo as int]);
        } else {
            assert(s@.skip(lo as int).len() == 0);
        }
        assert(trim_lead_char(s@, c) == s@.skip(lo as int));
        assert(s@.skip(lo as int) =~= s@.subrange(lo as int, n as int));
    }
    let mut hi: usize = n;
    while hi > lo && s.get_char(hi - 1) == c
        invariant
            n == s@.len(),
            lo <= hi <= n,
            trim_lead_char(s@, c) == s@.skip(lo as int),
            trim_trail_char(s@.skip(lo as int), c) == trim_trail_char(
                s@.subrange(lo as int, hi as int),
                c,
            ),
        decreases hi,
    {
        proof {
            assert(s@.subrange(lo as int, hi as int).last() == s@[hi - 1]);
            assert(s@.subrange(lo as int, hi as int).drop_last() =~= s@.subrange(
                lo as int,
                hi - 1,
            ));
        }
        hi = hi - 1;
    }
    proof {
        if hi > lo {
            assert(s@.subrange(lo as int, hi as int).last() == s@[hi - 1]);
        }
        assert(trim_trail_char(s@.subrange(lo as int, hi as int), c) == s@.subrange(
            lo as int,
            hi as int,
        ));
    }
    s.substring_char(lo, hi).to_owned()
}

/// Strip surrounding punctuation from a word.
fn trim_word(s: &str) -> (r: String)
    ensures
        r@ == clean_word(s@),
{
    let n = s.unicode_len();
    let mut lo: usize = 0;
    proof {
        assert(s@.skip(0) =~= s@);
    }
    while lo < n && !is_name_char_exec(s.get_char(lo))
        invariant
            n == s@.len(),
            lo <= n,
            trim_lead_nonname(s@) == trim_lead_nonname(s@.skip(lo as int)),
        decreases n - lo,
    {
        proof {
            assert(s@.skip(lo as int)[0] == s@[lo as int]);
            assert(s@.skip(lo as int).drop_first() =~= s@.skip(lo + 1));
        }
        lo = lo + 1;
    }
    proof {
        if lo < n {
            assert(s@.skip(lo as int)[0] == s@[lo as int]);
        } else {
            assert(s@.skip(lo as int).len() == 0);
        }
        assert(trim_lead_nonname(s@) == s@.skip(lo as int));
        assert(s@.skip(lo as int) =~= s@.subrange(lo as int, n as int));
    }
    let mut hi: usize = n;
    while hi > lo && !is_name_char_exec(s.get_char(hi - 1))
        invariant
            n == s@.len(),
            lo <= hi <= n,
            trim_lead_nonname(s@) == s@.skip(lo as int),
            trim_trail_nonname(s@.skip(lo as int)) == trim_trail_nonname(
                s@.subrange(lo as int, hi as int),
            ),
        decreases hi,
    {
        proof {
            assert(s@.subrange(lo as int, hi as int).last() == s@[hi - 1]);
            assert(s@.subrange(lo as int, hi as int).drop_last() =~= s@.subrange(
                lo as int,
                hi - 1,
            ));
        }
        hi = hi - 1;
    }
    proof {
        if hi > lo {
            assert(s@.subrange(lo as int, hi as int).last() == s@[hi - 1]);
        }
        assert(trim_trail_nonname(s@.subrange(lo as int, hi as int)) == s@.subrange(
            lo as int,
            hi as int,
        ));
    }
    s.substring_char(lo, hi).to_owned()
}

/// The position of the first `c` at or after `from`.
fn find_char_from(s: &str, from: usize, c: char) -> (r: Option<usize>)
    requires
        from <= s@.len(),
    ensures
        (match r {
            Some(i) => from <= i < s@.len() && find_char(s@.skip(from as int), c) == Some(
                i - from as int,
            ),
            None => find_char(s@.skip(from as int), c) is None,
        }),
{
    let n = s.unicode_len();
    let mut i = from;
    while i < n
        invariant
            n == s@.len(),
            from <= i <= n,
            (match find_char(s@.skip(i as int), c) {
                Some(k) => find_char(s@.skip(from as int), c) == Some(i - from + k),
                None => find_char(s@.skip(from as int), c) is None,
            }),
        decreases n - i,
    {
        proof {
            assert(s@.skip(i as int)[0] == s@[i as int]);
            assert(s@.skip(i as int).drop_first() =~= s@.skip(i + 1));
        }
        if s.get_char(i) == c {
            proof {
                assert(find_char(s@.skip(i as int), c) == Some(0int));
            }
            return Some(i);
        }
        i = i + 1;
    }
    proof {
        assert(s@.skip(n as int).len() == 0);
    }
    None
}

/// Whether every character of `w` may stand in a name.
fn all_name_chars_exec(w: &str) -> (r: bool)
    ensures
        r == all_name_chars(w@),
{
    let n = w.unicode_len();
    let mut k: usize = 0;
    while k < n
        invariant
            n == w@.len(),
            k <= n,
            forall|t: int| 0 <= t < k ==> is_name_char(#[trigger] w@[t]),
        decreases n - k,
    {
        if !is_name_char_exec(w.get_char(k)) {
            return false;
        }
        k = k + 1;
    }
    true
}

/// Whether `w` is too common a word to be a project name.
fn is_common_word(w: &str) -> (r: bool)
    ensures
        r == is_common(w@),
{
    str_eq(w, "a") || str_eq(w, "an") || str_eq(w, "the") || str_eq(w, "create") || str_eq(
        w,
        "make",
    ) || str_eq(w, "new") || str_eq(w, "project") || str_eq(w, "app") || str_eq(w, "with")
        || str_eq(w, "for") || str_eq(w, "my") || str_eq(w, "please") || str_eq(w, "can") || str_eq(
        w,
        "you",
    ) || str_eq(w, "i") || str_eq(w, "want") || str_eq(w, "need") || str_eq(w, "setup") || str_eq(
        w,
        "set",
    ) || str_eq(w, "up") || str_eq(w, "build") || str_eq(w, "start") || str_eq(w, "init")
        || str_eq(w, "initialize")
}

impl PatternMatcher {
    /// Extract a potential project name from the query: the word after a
    /// `called` or `named` marker, else the first double-quoted text, else
    /// the last word that looks like a name.
    pub fn extract_name(&self, query: &str) -> (r: Option<String>)
        ensures
            (match r {
                Some(nm) => spec_extract_name(query@) == Some(nm@),
                None => spec_extract_name(query@) is None,
            }),
    {
        let words = split_whitespace_words(query);
        let ghost ws = str_views(words@);
        let n = words.len();
        let mut i: usize = 0;
        while i < n
            invariant
                n == words@.len(),
                ws == str_views(words@),
                ws == split_ws(query@),
                i <= n,
                called_name(ws, 0) == called_name(ws, i as int),
            decreases n - i,
        {
            let is_marker = str_eq(words[i].as_str(), "called") || str_eq(
                words[i].as_str(),
                "named",
            );
            if is_marker && i + 1 < n {
                let t1 = trim_matches_char(words[i + 1].as_str(), '"');
                let t2 = trim_matches_char(t1.as_str(), '\'');
                proof {
                    assert(ws[i as int] == words@[i as int]@);
                    assert(ws[i + 1] == words@[i + 1]@);
                    assert(called_name(ws, i as int) == Some(t2@));
                    assert(spec_extract_name(query@) == Some(t2@));
                }
                return Some(t2);
            }
            proof {
                assert(ws[i as int] == words@[i as int]@);
            }
            i = i + 1;
        }
        proof {
            assert(called_name(ws, n as int) is None);
            assert(query@.skip(0) =~= query@);
        }
        let qn = query.unicode_len();
        if let Some(st) = find_char_from(query, 0, '"') {
            proof {
                assert(st < qn);
            }
            if let Some(e) = find_char_from(query, st + 1, '"') {
                let nm = query.substring_char(st + 1, e).to_owned();
                proof {
                    assert(query@.skip(st + 1).take(e - (st + 1)) =~= query@.subrange(
                        st + 1,
                        e as int,
                    ));
                }
                return Some(nm);
            }
        }
        let mut j: usize = n;
        proof {
            assert(ws.len() == n);
        }
        while j > 0
            invariant
                n == words@.len(),
                ws == str_views(words@),
                ws == split_ws(query@),
                ws.len() == n,
                j <= n,
                called_name(ws, 0) is None,
                quoted_name(query@) is None,
                last_name(ws, ws.len() - 1) == last_name(ws, j as int - 1),
            decreases j,
        {
            let clean = trim_word(words[j - 1].as_str());
            let mut keep = false;
            if !clean.as_str().is_empty() {
                let low = clean.as_str().to_lowercase();
                if !is_common_word(low.as_str()) {
                    if all_name_chars_exec(clean.as_str()) {
                        keep = true;
                    }
                }
            }
            if keep {
                proof {
                    assert(ws[j - 1] == words@[j - 1]@);
                    assert(last_name(ws, j as int - 1) == Some(clean@));
                    assert(spec_extract_name(query@) == Some(clean@));
                }
                return Some(clean);
            }
            proof {
                assert(ws[j - 1] == words@[j - 1]@);
                assert(last_name(ws, j as int - 1) == last_name(ws, j as int - 2));
            }
            j = j - 1;
        }
        None
    }
}

} // verus!
