//! The options of the matcher and what compiling a pattern gives.

use vstd::prelude::*;
use crate::matcher::{regex_accepts, regex_compiles, Matcher};
use crate::parse::ParseOptions;
use crate::scan::{is_on};
use crate::scan_model::{on};
use crate::utils::{copy_strings, texts_of};

verus! {

/// One pattern or a list of patterns.
#[derive(Debug, Clone)]
pub enum PicomatchGlob {
    String(String),
    Array(Vec<String>),
}

impl PicomatchGlob {
    /// The patterns as contracts see them: one pattern is a list of one.
    pub open spec fn patterns(&self) -> Seq<Seq<char>> {
        match self {
            PicomatchGlob::String(s) => seq![s@],
            PicomatchGlob::Array(v) => texts_of(v@),
        }
    }

    /// The patterns as a list.
    pub fn to_array(&self) -> (r: Vec<String>)
        ensures
            texts_of(r@) == self.patterns(),
    {
        match self {
            PicomatchGlob::String(s) => {
                let mut r: Vec<String> = Vec::new();
                r.push(s.clone());
                assert(texts_of(r@) =~= seq![s@]);
                r
            },
            PicomatchGlob::Array(arr) => copy_strings(arr),
        }
    }

    /// Whether this is a list of patterns.
    pub fn is_array(&self) -> (b: bool)
        ensures
            b == (self is Array),
    {
        match self {
            PicomatchGlob::Array(_) => true,
            PicomatchGlob::String(_) => false,
        }
    }
}

/// The options of the matcher.
#[derive(Debug, Clone, Default)]
pub struct PicomatchOptions {
    pub basename: Option<String>,
    pub bash: Option<bool>,
    pub capture: Option<bool>,
    pub contains: Option<bool>,
    pub posix: Option<bool>,
    pub cwd: Option<String>,
    pub debug: Option<bool>,
    pub dot: Option<bool>,
    pub fast_paths: Option<bool>,
    pub fail_glob: Option<bool>,
    pub flags: Option<String>,
    pub ignore: Option<PicomatchGlob>,
    pub keep_quotes: Option<bool>,
    pub literal_brackets: Option<bool>,
    pub lookbehinds: Option<bool>,
    pub match_base: Option<bool>,
    pub max_length: Option<bool>,
    pub nobrace: Option<bool>,
    pub nobracket: Option<bool>,
    pub nocase: Option<bool>,
    pub nodupes: Option<bool>,
    pub noext: Option<bool>,
    pub noextglob: Option<bool>,
    pub noglobstar: Option<bool>,
    pub nonegate: Option<bool>,
    pub noquantifiers: Option<bool>,
    pub posix_slashes: Option<bool>,
    pub prepend: Option<String>,
    pub regex: Option<bool>,
    pub strict_brackets: Option<bool>,
    pub strict_slashes: Option<bool>,
    pub unescape: Option<bool>,
    pub unixify: Option<bool>,
    pub windows: Option<bool>,
}

impl PicomatchOptions {
    /// The options of the parser that these options stand for. No length limit
    /// of its own is handed on, dots are never matched, and every switch is
    /// spelled out.
    pub open spec fn parse_options(&self) -> ParseOptions {
        ParseOptions {
            max_length: None,
            prepend: self.prepend,
            windows: on(self.windows),
            capture: Some(on(self.capture)),
            dot: Some(false),
            bash: Some(on(self.bash)),
            noext: Some(on(self.noext)),
            noextglob: Some(on(self.noextglob)),
            noglobstar: Some(on(self.noglobstar)),
            strict_slashes: Some(on(self.strict_slashes)),
        }
    }

    /// The options for the parser.
    pub fn to_parse_options(&self) -> (r: ParseOptions)
        ensures
            r == self.parse_options(),
    {
        ParseOptions {
            max_length: None,
            prepend: match &self.prepend {
                Some(s) => Some(s.clone()),
                None => None,
            },
            windows: is_on(self.windows),
            capture: Some(is_on(self.capture)),
            dot: Some(false),
            bash: Some(is_on(self.bash)),
            noext: Some(is_on(self.noext)),
            noextglob: Some(is_on(self.noextglob)),
            noglobstar: Some(is_on(self.noglobstar)),
            strict_slashes: Some(is_on(self.strict_slashes)),
        }
    }
}

/// What parsing leaves: the regex source and whether the pattern is negated.
#[derive(Debug, Clone, Default)]
pub struct State {
    pub output: String,
    pub negated: bool,
}

/// A pattern put into a regex: the regex itself, or, for a source that does
/// not compile, a matcher that accepts nothing.
pub enum Compiled {
    Regex(Matcher),
    Never,
}

/// How compiling a source ended.
pub enum Outcome {
    /// The source compiled.
    Compiled { source: Seq<char>, nocase: bool },
    /// The source did not compile, and a matcher that accepts nothing stands
    /// in for it.
    Never,
    /// The source did not compile, and the error was handed on.
    Failed,
}

/// How compiling `source` ends: a failure is handed on only on demand.
pub open spec fn outcome_of(source: Seq<char>, nocase: bool, debug: bool) -> Outcome {
    if regex_compiles(source, nocase) {
        Outcome::Compiled { source, nocase }
    } else if debug {
        Outcome::Failed
    } else {
        Outcome::Never
    }
}

/// Whether a matcher with this outcome accepts `text`.
pub open spec fn accepts(outcome: Outcome, text: Seq<char>) -> bool {
    match outcome {
        Outcome::Compiled { source, nocase } => regex_accepts(source, nocase, text),
        Outcome::Never => false,
        Outcome::Failed => false,
    }
}

/// The outcome that a result of compiling stands for.
pub open spec fn outcome(regex: Result<Compiled, regex::Error>) -> Outcome {
    match regex {
        Ok(Compiled::Regex(m)) => Outcome::Compiled { source: m.source(), nocase: m.nocase() },
        Ok(Compiled::Never) => Outcome::Never,
        Err(_) => Outcome::Failed,
    }
}

impl Compiled {
    /// The source that was compiled, if any was.
    pub fn source(&self) -> (r: Option<String>)
        ensures
            match outcome(Ok(*self)) {
                Outcome::Compiled { source, nocase } => r is Some && r->0@ == source,
                _ => r is None,
            },
    {
        match self {
            Compiled::Regex(m) => Some(m.source_string()),
            Compiled::Never => None,
        }
    }

    /// Whether the matcher accepts `text`. The stand-in for a source that
    /// did not compile accepts nothing.
    pub fn test(&self, text: &str) -> (b: bool)
        ensures
            b == accepts(outcome(Ok(*self)), text@),
    {
        match self {
            Compiled::Regex(m) => m.test(text),
            Compiled::Never => false,
        }
    }
}

/// A compiled pattern: the outcome of building its regex, and the parsed
/// state if it was asked for.
pub struct CompileReResult {
    pub regex: Result<Compiled, regex::Error>,
    pub state: Option<State>,
}

impl CompileReResult {
    /// Whether the compiled pattern accepts `path`. Where compiling failed,
    /// nothing is accepted.
    pub fn test(&self, path: &str) -> (b: bool)
        ensures
            b == accepts(outcome(self.regex), path@),
    {
        match &self.regex {
            Ok(c) => c.test(path),
            Err(_) => false,
        }
    }

    /// Whether a matcher that accepts nothing stands in for the pattern.
    pub fn is_degraded(&self) -> (b: bool)
        ensures
            b == (outcome(self.regex) is Never),
    {
        match &self.regex {
            Ok(Compiled::Never) => true,
            _ => false,
        }
    }
}

/// What compiling gives: the parsed output alone, or a compiled pattern.
pub enum CompileReReturn {
    String(String),
    CompileReResult(CompileReResult),
}

impl CompileReReturn {
    /// Whether this is the parsed output alone.
    pub fn is_string(&self) -> (b: bool)
        ensures
            b == (self is String),
    {
        match self {
            CompileReReturn::String(_) => true,
            _ => false,
        }
    }
}

} // verus!
