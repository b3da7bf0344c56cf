//! Putting a parsed pattern into a regex, and the choice between the fast
//! paths and the parser.

use vstd::prelude::*;
use crate::matcher::Matcher;
use crate::parse::{
    byte_length, fast_path, fast_paths, length_limit, over_limit, parse, too_long, PatternError,
};
use crate::parse_model::parsed;
use crate::scan::{is_on};
use crate::scan_model::{char_at, on};
use crate::text::{chars_of, push_str, string_of};
use crate::types::{
    outcome, outcome_of, CompileReResult, CompileReReturn, Compiled, PicomatchGlob,
    PicomatchOptions, State,
};

verus! {

/// The compiler of parsed patterns.
pub struct Picomatch {}

/// The options that building a regex goes by.
pub struct RegexOptions {
    pub nocase: Option<bool>,
    pub debug: Option<bool>,
}

impl Default for RegexOptions {
    fn default() -> (r: Self)
        ensures
            r.nocase is None,
            r.debug is None,
    {
        RegexOptions { nocase: None, debug: None }
    }
}

/// The source of the whole regex: `output` in a group, between anchors
/// unless a match anywhere in the path is enough.
pub open spec fn anchored(output: Seq<char>, contains: bool) -> Seq<char> {
    (if contains {
        ""@
    } else {
        "^"@
    }) + "(?:"@ + output + ")"@ + (if contains {
        ""@
    } else {
        "$"@
    })
}

/// The source of a negated pattern: whatever the source `inner` does not
/// match at the start.
pub open spec fn negation_of(inner: Seq<char>) -> Seq<char> {
    "^(?!"@ + inner + ").*$"@
}

/// The regex source for the parsed `output`.
pub open spec fn assembled(output: Seq<char>, negated: bool, contains: bool) -> Seq<char> {
    if negated {
        negation_of(anchored(output, contains))
    } else {
        anchored(output, contains)
    }
}

/// The source of a negated pattern is the source of the pattern without the
/// negation, put into a negative lookahead that is followed by anything.
pub proof fn lemma_negation_wraps_plain_source(output: Seq<char>, contains: bool)
    ensures
        assembled(output, true, contains) == negation_of(assembled(output, false, contains)),
{
}

/// Builds the regex source for the parsed `output`.
pub fn assemble(output: &str, negated: bool, contains: bool) -> (r: String)
    ensures
        r@ == assembled(output@, negated, contains),
{
    let mut inner: Vec<char> = Vec::new();
    push_str(
        &mut inner,
        if contains {
            ""
        } else {
            "^"
        },
    );
    push_str(&mut inner, "(?:");
    push_str(&mut inner, output);
    push_str(&mut inner, ")");
    push_str(
        &mut inner,
        if contains {
            ""
        } else {
            "$"
        },
    );
    assert(inner@ =~= anchored(output@, contains));
    if negated {
        let mut all: Vec<char> = Vec::new();
        push_str(&mut all, "^(?!");
        crate::text::push_all(&mut all, &inner);
        push_str(&mut all, ").*$");
        assert(all@ =~= negation_of(inner@));
        string_of(&all)
    } else {
        string_of(&inner)
    }
}

/// What is done with the result of building a regex: a regex that was built
/// is kept; a failure is handed on if `debug` asks for it, and else a
/// matcher that accepts nothing takes the regex's place.
pub fn settle(built: Result<Matcher, regex::Error>, debug: bool) -> (r: Result<
    Compiled,
    regex::Error,
>)
    ensures
        match built {
            Ok(m) => r == Ok::<Compiled, regex::Error>(Compiled::Regex(m)),
            Err(e) => if debug {
                r == Err::<Compiled, regex::Error>(e)
            } else {
                r == Ok::<Compiled, regex::Error>(Compiled::Never)
            },
        },
{
    match built {
        Ok(m) => Ok(Compiled::Regex(m)),
        Err(e) => if debug {
            Err(e)
        } else {
            Ok(Compiled::Never)
        },
    }
}

/// The state that stands in where none is given.
pub open spec fn state_or_empty(state: Option<State>) -> (Seq<char>, bool) {
    match state {
        Some(s) => (s.output@, s.negated),
        None => (Seq::empty(), false),
    }
}

/// Whether `r` is what compiling the parsed `state` gives: with
/// `return_output` the parsed output as it is; else the outcome of compiling
/// the assembled source, and the state with it if `return_state` asks for it.
pub open spec fn compiles_to(
    r: CompileReReturn,
    state: (Seq<char>, bool),
    contains: bool,
    nocase: bool,
    debug: bool,
    return_output: bool,
    return_state: bool,
) -> bool {
    if return_output {
        r is String && r->String_0@ == state.0
    } else {
        &&& r is CompileReResult
        &&& outcome(r->CompileReResult_0.regex) == outcome_of(
            assembled(state.0, state.1, contains),
            nocase,
            debug,
        )
        &&& match r->CompileReResult_0.state {
            Some(s) => return_state && (s.output@, s.negated) == state,
            None => !return_state,
        }
    }
}

/// Compiles `source`. A source that does not compile gives a matcher that
/// accepts nothing, unless `debug` asks for the error.
pub fn regex_for(source: &str, nocase: bool, debug: bool) -> (r: Result<Compiled, regex::Error>)
    ensures
        outcome(r) == outcome_of(source@, nocase, debug),
{
    settle(Matcher::build(source, nocase), debug)
}

/// Puts a parsed pattern into a regex.
pub fn compile(
    state: State,
    contains: bool,
    nocase: bool,
    debug: bool,
    return_output: bool,
    return_state: bool,
) -> (r: CompileReReturn)
    ensures
        compiles_to(
            r,
            (state.output@, state.negated),
            contains,
            nocase,
            debug,
            return_output,
            return_state,
        ),
{
    if return_output {
        return CompileReReturn::String(state.output);
    }
    let source = assemble(state.output.as_str(), state.negated, contains);
    let regex = regex_for(source.as_str(), nocase, debug);
    CompileReReturn::CompileReResult(
        CompileReResult {
            regex,
            state: if return_state {
                Some(state)
            } else {
                None
            },
        },
    )
}

impl Picomatch {
    /// Compiles `source`. A source that does not compile gives a matcher that
    /// accepts nothing, unless the options ask for the error.
    pub fn to_regex(&self, source: &str, options: Option<&RegexOptions>) -> (r: Result<
        Compiled,
        regex::Error,
    >)
        ensures
            outcome(r) == outcome_of(
                source@,
                match options {
                    Some(o) => on(o.nocase),
                    None => false,
                },
                match options {
                    Some(o) => on(o.debug),
                    None => false,
                },
            ),
    {
        let nocase = match options {
            Some(o) => is_on(o.nocase),
            None => false,
        };
        let debug = match options {
            Some(o) => is_on(o.debug),
            None => false,
        };
        regex_for(source, nocase, debug)
    }

    /// Puts a parsed pattern into a regex. With `return_output` the parsed
    /// output is handed back as it is; else the output is anchored, negated
    /// if the state says so, and compiled, and the state goes along if
    /// `return_state` asks for it. Without a state the output is empty.
    pub fn compile_re(
        &mut self,
        state: Option<State>,
        options: PicomatchOptions,
        return_output: Option<bool>,
        return_state: Option<bool>,
    ) -> (r: CompileReReturn)
        ensures
            compiles_to(
                r,
                state_or_empty(state),
                on(options.contains),
                on(options.nocase),
                on(options.debug),
                on(return_output),
                on(return_state),
            ),
    {
        let state = match state {
            Some(s) => s,
            None => State { output: String::new(), negated: false },
        };
        compile(
            state,
            is_on(options.contains),
            is_on(options.nocase),
            is_on(options.debug),
            is_on(return_output),
            is_on(return_state),
        )
    }
}

/// Whether the fast paths are tried for the pattern `p`: they are switched
/// on, and the pattern begins with a dot or has a star in second place.
pub open spec fn tries_fast_paths(p: Seq<char>, o: PicomatchOptions) -> bool {
    &&& on(o.fast_paths)
    &&& (char_at(p, 0) == Some('.') || char_at(p, 1) == Some('*'))
    &&& byte_length(p) <= length_limit(None)
}

/// What the pattern `p` is turned into before it is compiled: nothing for
/// an empty pattern or one that is too long, the source of a fast path where
/// one applies, and what the parser makes of it otherwise.
pub open spec fn source_for(p: Seq<char>, o: PicomatchOptions) -> Result<
    (Seq<char>, bool),
    PatternError,
> {
    if p.len() == 0 {
        Err(PatternError::Empty)
    } else if tries_fast_paths(p, o) && fast_path(p, o.parse_options()) is Some {
        Ok((fast_path(p, o.parse_options())->0, false))
    } else if too_long(p, o.parse_options()) {
        Err(PatternError::TooLong(length_limit(None) as i32))
    } else {
        Ok(parsed(p, o.parse_options()))
    }
}

/// Turns the pattern `input` into a regex: by a fast path where one applies,
/// else by the parser. An empty pattern and one that is too long are
/// rejected.
pub fn make_re(
    input: &String,
    options: &PicomatchOptions,
    return_output: Option<bool>,
    return_state: Option<bool>,
) -> (r: Result<CompileReReturn, PatternError>)
    ensures
        match source_for(input@, *options) {
            Ok(state) => r is Ok && compiles_to(
                r->Ok_0,
                state,
                on(options.contains),
                on(options.nocase),
                on(options.debug),
                on(return_output),
                on(return_state),
            ),
            Err(e) => r == Err::<CompileReReturn, PatternError>(e),
        },
{
    if input.as_str().is_empty() {
        return Err(PatternError::Empty);
    }
    let opts = options.to_parse_options();
    let mut done: Option<String> = None;
    if is_on(options.fast_paths) && !over_limit(input.as_str().as_bytes().len(), None) {
        let chars = chars_of(input.as_str());
        if chars[0] == '.' || (chars.len() > 1 && chars[1] == '*') {
            done = fast_paths(input, &opts);
        }
    }
    let state = match done {
        Some(output) => State { output, negated: false },
        None => match parse(input.as_str(), &opts) {
            Ok(state) => state,
            Err(e) => {
                return Err(e);
            },
        },
    };
    Ok(
        compile(
            state,
            is_on(options.contains),
            is_on(options.nocase),
            is_on(options.debug),
            is_on(return_output),
            is_on(return_state),
        ),
    )
}

/// Compiles one pattern into a matcher that keeps the parsed state. A list
/// of patterns is left to the caller: for it there is no matcher.
pub fn picomatch(glob: &PicomatchGlob, options: &PicomatchOptions) -> (r: Result<
    Option<CompileReResult>,
    PatternError,
>)
    ensures
        match *glob {
            PicomatchGlob::Array(_) => r == Ok::<Option<CompileReResult>, PatternError>(None),
            PicomatchGlob::String(s) => match source_for(s@, *options) {
                Ok(state) => r is Ok && r->Ok_0 is Some && compiles_to(
                    CompileReReturn::CompileReResult(r->Ok_0->0),
                    state,
                    on(options.contains),
                    on(options.nocase),
                    on(options.debug),
                    false,
                    true,
                ),
                Err(e) => r == Err::<Option<CompileReResult>, PatternError>(e),
            },
        },
{
    match glob {
        PicomatchGlob::Array(_) => Ok(None),
        PicomatchGlob::String(s) => match make_re(s, options, Some(false), Some(true)) {
            Ok(CompileReReturn::CompileReResult(m)) => Ok(Some(m)),
            Ok(CompileReReturn::String(_)) => Ok(None),
            Err(e) => Err(e),
        },
    }
}

} // verus!
