//! How a failure is told apart: rate limits and congestion slow the whole run
//! down, network failures are retried, a server without shallow support gets a
//! full fetch, anything else is fatal.

use crate::text;
use vstd::prelude::*;
use vstd::std_specs::convert::FromSpecImpl;

verus! {

#[derive(Debug, Clone, Copy, PartialEq, Eq, Structural)]
pub enum FailureKind {
    RateLimited,
    Congestion,
    Network,
    ShallowUnsupported,
    Fatal,
}

impl FailureKind {
    /// The name of the kind.
    pub open spec fn label(self) -> Seq<char> {
        match self {
            FailureKind::RateLimited => "RateLimited"@,
            FailureKind::Congestion => "Congestion"@,
            FailureKind::Network => "Network"@,
            FailureKind::ShallowUnsupported => "ShallowUnsupported"@,
            FailureKind::Fatal => "Fatal"@,
        }
    }

    pub fn name(self) -> (r: &'static str)
        ensures
            r@ == self.label(),
    {
        match self {
            FailureKind::RateLimited => "RateLimited",
            FailureKind::Congestion => "Congestion",
            FailureKind::Network => "Network",
            FailureKind::ShallowUnsupported => "ShallowUnsupported",
            FailureKind::Fatal => "Fatal",
        }
    }
}

/// A failure of a git command, classified.
#[derive(Debug)]
pub enum RgcError {
    RateLimited(String),
    Congestion(String),
    Network(String),
    ShallowUnsupported(String),
    Fatal(String),
}

impl View for RgcError {
    type V = (FailureKind, Seq<char>);

    /// The kind of the failure and its message.
    open spec fn view(&self) -> (FailureKind, Seq<char>) {
        match self {
            RgcError::RateLimited(m) => (FailureKind::RateLimited, m@),
            RgcError::Congestion(m) => (FailureKind::Congestion, m@),
            RgcError::Network(m) => (FailureKind::Network, m@),
            RgcError::ShallowUnsupported(m) => (FailureKind::ShallowUnsupported, m@),
            RgcError::Fatal(m) => (FailureKind::Fatal, m@),
        }
    }
}

impl RgcError {
    pub fn kind(&self) -> (r: FailureKind)
        ensures
            r == self@.0,
    {
        match self {
            RgcError::RateLimited(_) => FailureKind::RateLimited,
            RgcError::Congestion(_) => FailureKind::Congestion,
            RgcError::Network(_) => FailureKind::Network,
            RgcError::ShallowUnsupported(_) => FailureKind::ShallowUnsupported,
            RgcError::Fatal(_) => FailureKind::Fatal,
        }
    }

    pub fn message(&self) -> (r: &str)
        ensures
            r@ == self@.1,
    {
        match self {
            RgcError::RateLimited(m) => m.as_str(),
            RgcError::Congestion(m) => m.as_str(),
            RgcError::Network(m) => m.as_str(),
            RgcError::ShallowUnsupported(m) => m.as_str(),
            RgcError::Fatal(m) => m.as_str(),
        }
    }

    /// The error in one line: its kind in brackets and its message.
    pub fn render(&self) -> (r: String)
        ensures
            r@ == "["@ + self@.0.label() + "] "@ + self@.1,
    {
        let mut out = String::from_str("[");
        out.append(self.kind().name());
        out.append("] ");
        out.append(self.message());
        out
    }

    /// The error of the given kind with the given message.
    pub fn from_kind(kind: FailureKind, msg: String) -> (r: RgcError)
        ensures
            r@ == (kind, msg@),
    {
        match kind {
            FailureKind::RateLimited => RgcError::RateLimited(msg),
            FailureKind::Congestion => RgcError::Congestion(msg),
            FailureKind::Network => RgcError::Network(msg),
            FailureKind::ShallowUnsupported => RgcError::ShallowUnsupported(msg),
            FailureKind::Fatal => RgcError::Fatal(msg),
        }
    }
}

/// What any operation of a clone can fail with: a classified git failure, one
/// with a word on what was being done, or something else that only has a message.
#[derive(Debug)]
pub enum Error {
    Rgc(RgcError),
    During(String, RgcError),
    Other(String),
}

/// An error as the contracts speak of it: its kind where it is classified, its
/// message, and what stands before both when it is shown.
pub struct ErrorView {
    pub kind: Option<FailureKind>,
    pub context: Seq<char>,
    pub message: Seq<char>,
}

impl View for Error {
    type V = ErrorView;

    open spec fn view(&self) -> ErrorView {
        match self {
            Error::Rgc(e) => ErrorView::classified(e@.0, e@.1),
            Error::During(c, e) => ErrorView { kind: Some(e@.0), context: c@, message: e@.1 },
            Error::Other(m) => ErrorView::plain(m@),
        }
    }
}

impl ErrorView {
    /// The kind by which a failure is handled: one that is not classified
    /// counts as fatal.
    pub open spec fn handled_as(self) -> FailureKind {
        match self.kind {
            Some(k) => k,
            None => FailureKind::Fatal,
        }
    }

    /// The error in one line: a classified failure carries its kind in brackets.
    pub open spec fn rendered(self) -> Seq<char> {
        match self.kind {
            Some(k) => self.context + "["@ + k.label() + "] "@ + self.message,
            None => self.context + self.message,
        }
    }

    /// An error that only has a message.
    pub open spec fn plain(message: Seq<char>) -> ErrorView {
        ErrorView { kind: None, context: Seq::empty(), message }
    }

    /// A classified error with nothing before it.
    pub open spec fn classified(kind: FailureKind, message: Seq<char>) -> ErrorView {
        ErrorView { kind: Some(kind), context: Seq::empty(), message }
    }
}

impl Error {
    /// The error in one line.
    pub fn render(&self) -> (r: String)
        ensures
            r@ == self@.rendered(),
    {
        match self {
            Error::Rgc(e) => {
                let out = e.render();
                assert(out@ =~= self@.rendered());
                out
            },
            Error::During(c, e) => {
                let out = text::cat(c.as_str(), e.render().as_str());
                assert(out@ =~= self@.rendered());
                out
            },
            Error::Other(m) => {
                let out = m.clone();
                assert(out@ =~= self@.rendered());
                out
            },
        }
    }

    /// The same error, with a word on what was being done before it.
    pub fn context(self, doing: &str) -> (r: Error)
        ensures
            r@.kind == self@.kind,
            r@.rendered() == doing@ + ": "@ + self@.rendered(),
    {
        let lead = text::cat(doing, ": ");
        let ghost before = self@.rendered();
        let r = match self {
            Error::Rgc(e) => Error::During(lead, e),
            Error::During(c, e) => Error::During(text::cat(lead.as_str(), c.as_str()), e),
            Error::Other(m) => Error::Other(text::cat(lead.as_str(), m.as_str())),
        };
        assert(r@.rendered() =~= doing@ + ": "@ + before);
        r
    }
}

impl Clone for RgcError {
    fn clone(&self) -> (r: RgcError)
        ensures
            r@ == self@,
    {
        RgcError::from_kind(self.kind(), String::from_str(self.message()))
    }
}

impl Clone for Error {
    fn clone(&self) -> (r: Error)
        ensures
            r@ == self@,
    {
        match self {
            Error::Rgc(e) => Error::Rgc(e.clone()),
            Error::During(c, e) => Error::During(c.clone(), e.clone()),
            Error::Other(m) => Error::Other(m.clone()),
        }
    }
}

impl From<RgcError> for Error {
    fn from(e: RgcError) -> (r: Error) {
        Error::Rgc(e)
    }
}

impl FromSpecImpl<RgcError> for Error {
    open spec fn obeys_from_spec() -> bool {
        true
    }

    open spec fn from_spec(e: RgcError) -> Error {
        Error::Rgc(e)
    }
}

/// The kind of a failure; one that is not classified is fatal.
pub fn kind_of(err: &Error) -> (r: FailureKind)
    ensures
        r == err@.handled_as(),
{
    match err {
        Error::Rgc(e) => e.kind(),
        Error::During(_, e) => e.kind(),
        Error::Other(_) => FailureKind::Fatal,
    }
}

// ------------------------------------------------------------- classification

pub open spec fn says_rate_limited(s: Seq<char>) -> bool {
    ||| text::mentions(s, "http 429"@)
    ||| text::mentions(s, "returned error: 429"@)
    ||| text::mentions(s, "error: 429"@)
    ||| text::mentions(s, "rate limit"@)
    ||| text::mentions(s, "secondary rate"@)
    ||| text::mentions(s, "abuse"@)
}

pub open spec fn says_network(s: Seq<char>) -> bool {
    ||| text::mentions(s, "could not resolve host"@)
    ||| text::mentions(s, "connection refused"@)
    ||| text::mentions(s, "the remote end hung up"@)
    ||| text::mentions(s, "could not read from remote repository"@)
    ||| text::mentions(s, "timed out"@)
    ||| text::mentions(s, "early eof"@)
    ||| text::mentions(s, "rpc failed"@)
    ||| text::mentions(s, "unable to access"@)
    ||| text::mentions(s, "temporary failure"@)
}

pub open spec fn says_no_shallow(s: Seq<char>) -> bool {
    ||| text::mentions(s, "does not support shallow"@)
    ||| text::mentions(s, "shallow"@) && text::mentions(s, "dumb http"@)
}

/// The kind that lower-case diagnostics stand for: the first of rate limit,
/// congestion, network and missing shallow support that they speak of, and
/// fatal when they speak of none.
pub open spec fn kind_told_by(s: Seq<char>) -> FailureKind {
    if says_rate_limited(s) {
        FailureKind::RateLimited
    } else if text::mentions(s, "connection reset"@) {
        FailureKind::Congestion
    } else if says_network(s) {
        FailureKind::Network
    } else if says_no_shallow(s) {
        FailureKind::ShallowUnsupported
    } else {
        FailureKind::Fatal
    }
}

/// Classifies diagnostics that are in lower case already.
pub fn classify_lowercase(s: &str) -> (r: FailureKind)
    ensures
        r == kind_told_by(s@),
{
    let v = text::chars_of(s);
    let c = v.as_slice();
    if text::contains_text(c, "http 429") || text::contains_text(c, "returned error: 429") || text::contains_text(
        c,
        "error: 429",
    ) || text::contains_text(c, "rate limit") || text::contains_text(c, "secondary rate") || text::contains_text(
        c,
        "abuse",
    ) {
        FailureKind::RateLimited
    } else if text::contains_text(c, "connection reset") {
        FailureKind::Congestion
    } else if text::contains_text(c, "could not resolve host") || text::contains_text(c, "connection refused")
        || text::contains_text(c, "the remote end hung up") || text::contains_text(
        c,
        "could not read from remote repository",
    ) || text::contains_text(c, "timed out") || text::contains_text(c, "early eof") || text::contains_text(
        c,
        "rpc failed",
    ) || text::contains_text(c, "unable to access") || text::contains_text(c, "temporary failure") {
        FailureKind::Network
    } else if text::contains_text(c, "does not support shallow") || (text::contains_text(c, "shallow")
        && text::contains_text(c, "dumb http")) {
        FailureKind::ShallowUnsupported
    } else {
        FailureKind::Fatal
    }
}

/// Classifies what git wrote to its standard error, whatever its case.
pub fn classify(stderr: &str) -> (r: FailureKind)
    ensures
        r == kind_told_by(text::lowercase(stderr@)),
        vstd::utf8::is_ascii_chars(stderr@) ==> r == kind_told_by(text::small_letters(stderr@)),
{
    let s = text::to_lowercase(stderr);
    classify_lowercase(s.as_str())
}

// ----------------------------------------------------------------------- laws

/// A rate limit wins over every other reading: diagnostics that mention a 429
/// answer are rate-limited whatever else they say.
pub proof fn law_rate_limit_wins(s: Seq<char>)
    requires
        says_rate_limited(s),
    ensures
        kind_told_by(s) == FailureKind::RateLimited,
{
}

/// Case does not matter: texts that differ only in whether letters of ASCII are
/// capital are of the same kind.
pub proof fn law_case_does_not_matter(s: Seq<char>, t: Seq<char>)
    requires
        s.len() == t.len(),
        forall|i: int|
            0 <= i < s.len() ==> text::small_letter(#[trigger] s[i]) == text::small_letter(t[i]),
    ensures
        kind_told_by(text::small_letters(s)) == kind_told_by(text::small_letters(t)),
{
    assert(text::small_letters(s) =~= text::small_letters(t));
}

/// Diagnostics without any of the known phrases are fatal.
pub proof fn law_unknown_is_fatal(s: Seq<char>)
    requires
        !says_rate_limited(s),
        !text::mentions(s, "connection reset"@),
        !says_network(s),
        !text::mentions(s, "shallow"@),
        !text::mentions(s, "does not support shallow"@),
    ensures
        kind_told_by(s) == FailureKind::Fatal,
{
}

/// Longer diagnostics never lose a rate limit: whatever stands before or after
/// a text that tells of one, the whole tells of one.
pub proof fn law_rate_limit_survives_context(before: Seq<char>, s: Seq<char>, after: Seq<char>)
    requires
        says_rate_limited(s),
    ensures
        kind_told_by(before + s + after) == FailureKind::RateLimited,
{
    let whole = before + s + after;
    lemma_mentions_within(before, s, after, "http 429"@);
    lemma_mentions_within(before, s, after, "returned error: 429"@);
    lemma_mentions_within(before, s, after, "error: 429"@);
    lemma_mentions_within(before, s, after, "rate limit"@);
    lemma_mentions_within(before, s, after, "secondary rate"@);
    lemma_mentions_within(before, s, after, "abuse"@);
}

proof fn lemma_mentions_within(before: Seq<char>, s: Seq<char>, after: Seq<char>, key: Seq<char>)
    ensures
        text::mentions(s, key) ==> text::mentions(before + s + after, key),
{
    let whole = before + s + after;
    if text::mentions(s, key) {
        let i = choose|i: int| text::occurs_at(s, key, i);
        assert(whole.subrange(before.len() + i, before.len() + i + key.len()) =~= s.subrange(
            i,
            i + key.len(),
        ));
        assert(text::occurs_at(whole, key, before.len() + i));
    }
}

/// The phrases that tell of a rate limit. Whatever else is said, before or after, the
/// failure is a rate limit.
pub proof fn law_phrases_of_a_rate_limit(s: Seq<char>)
    ensures
        text::mentions(s, "http 429"@) ==> kind_told_by(s) == FailureKind::RateLimited,
        text::mentions(s, "returned error: 429"@) ==> kind_told_by(s) == FailureKind::RateLimited,
        text::mentions(s, "error: 429"@) ==> kind_told_by(s) == FailureKind::RateLimited,
        text::mentions(s, "rate limit"@) ==> kind_told_by(s) == FailureKind::RateLimited,
        text::mentions(s, "secondary rate"@) ==> kind_told_by(s) == FailureKind::RateLimited,
        text::mentions(s, "abuse"@) ==> kind_told_by(s) == FailureKind::RateLimited,
        kind_told_by(s) == FailureKind::RateLimited ==> text::mentions(s, "http 429"@)
            || text::mentions(s, "returned error: 429"@) || text::mentions(s, "error: 429"@)
            || text::mentions(s, "rate limit"@) || text::mentions(s, "secondary rate"@)
            || text::mentions(s, "abuse"@),
{
}

/// A reset connection is congestion, whatever else is said, unless a rate limit is
/// told of; and nothing else is congestion.
pub proof fn law_phrase_of_congestion(s: Seq<char>)
    ensures
        kind_told_by(s) == FailureKind::Congestion <==> text::mentions(s, "connection reset"@)
            && kind_told_by(s) != FailureKind::RateLimited,
{
}

/// The phrases of a failing network. Each of them makes the failure one of the network,
/// whatever else is said, unless a rate limit or a reset connection is told of; and
/// without any of them no failure is.
pub proof fn law_phrases_of_the_network(s: Seq<char>)
    requires
        kind_told_by(s) != FailureKind::RateLimited,
        !text::mentions(s, "connection reset"@),
    ensures
        text::mentions(s, "could not resolve host"@) ==> kind_told_by(s) == FailureKind::Network,
        text::mentions(s, "connection refused"@) ==> kind_told_by(s) == FailureKind::Network,
        text::mentions(s, "the remote end hung up"@) ==> kind_told_by(s) == FailureKind::Network,
        text::mentions(s, "could not read from remote repository"@) ==> kind_told_by(s)
            == FailureKind::Network,
        text::mentions(s, "timed out"@) ==> kind_told_by(s) == FailureKind::Network,
        text::mentions(s, "early eof"@) ==> kind_told_by(s) == FailureKind::Network,
        text::mentions(s, "rpc failed"@) ==> kind_told_by(s) == FailureKind::Network,
        text::mentions(s, "unable to access"@) ==> kind_told_by(s) == FailureKind::Network,
        text::mentions(s, "temporary failure"@) ==> kind_told_by(s) == FailureKind::Network,
        kind_told_by(s) == FailureKind::Network ==> text::mentions(s, "could not resolve host"@)
            || text::mentions(s, "connection refused"@) || text::mentions(
            s,
            "the remote end hung up"@,
        ) || text::mentions(s, "could not read from remote repository"@) || text::mentions(
            s,
            "timed out"@,
        ) || text::mentions(s, "early eof"@) || text::mentions(s, "rpc failed"@)
            || text::mentions(s, "unable to access"@) || text::mentions(s, "temporary failure"@),
{
}

/// A server without shallow fetches is told by its own words, or by being a dumb server
/// that is asked for a shallow fetch, where nothing before it is told of. What tells of
/// none of these is fatal, and nothing else is.
pub proof fn law_phrases_of_no_shallow_support(s: Seq<char>)
    requires
        kind_told_by(s) != FailureKind::RateLimited,
        kind_told_by(s) != FailureKind::Congestion,
        kind_told_by(s) != FailureKind::Network,
    ensures
        text::mentions(s, "does not support shallow"@) ==> kind_told_by(s)
            == FailureKind::ShallowUnsupported,
        text::mentions(s, "shallow"@) && text::mentions(s, "dumb http"@) ==> kind_told_by(s)
            == FailureKind::ShallowUnsupported,
        kind_told_by(s) == FailureKind::Fatal <==> !text::mentions(s, "does not support shallow"@)
            && !(text::mentions(s, "shallow"@) && text::mentions(s, "dumb http"@)),
{
}

/// Diagnostics only gain: a phrase of the network that stands anywhere in them keeps
/// them from being fatal, so that a piece is tried again.
pub proof fn law_dropped_connection_is_never_fatal(before: Seq<char>, after: Seq<char>)
    ensures
        kind_told_by(before + "the remote end hung up"@ + after) != FailureKind::Fatal,
        kind_told_by(before + "early eof"@ + after) != FailureKind::Fatal,
        kind_told_by(before + "rpc failed"@ + after) != FailureKind::Fatal,
        kind_told_by(before + "timed out"@ + after) != FailureKind::Fatal,
        kind_told_by(before + "could not resolve host"@ + after) != FailureKind::Fatal,
        kind_told_by(before + "could not read from remote repository"@ + after)
            != FailureKind::Fatal,
        kind_told_by(before + "connection refused"@ + after) != FailureKind::Fatal,
        kind_told_by(before + "connection reset"@ + after) != FailureKind::Fatal,
        kind_told_by(before + "unable to access"@ + after) != FailureKind::Fatal,
        kind_told_by(before + "temporary failure"@ + after) != FailureKind::Fatal,
{
    text::lemma_mentioned_between(before, "the remote end hung up"@, after);
    text::lemma_mentioned_between(before, "early eof"@, after);
    text::lemma_mentioned_between(before, "rpc failed"@, after);
    text::lemma_mentioned_between(before, "timed out"@, after);
    text::lemma_mentioned_between(before, "could not resolve host"@, after);
    text::lemma_mentioned_between(before, "could not read from remote repository"@, after);
    text::lemma_mentioned_between(before, "connection refused"@, after);
    text::lemma_mentioned_between(before, "connection reset"@, after);
    text::lemma_mentioned_between(before, "unable to access"@, after);
    text::lemma_mentioned_between(before, "temporary failure"@, after);
}

/// How an error is shown: what was being done, the kind in brackets where there is one,
/// and the message; nothing is left out and nothing else is said.
pub proof fn law_errors_are_shown_whole(
    kind: FailureKind,
    context: Seq<char>,
    message: Seq<char>,
)
    ensures
        ErrorView::plain(message).rendered() == message,
        ErrorView::plain(message).kind is None,
        ErrorView::classified(kind, message).kind == Some(kind),
        ErrorView::classified(kind, message).rendered() == "["@ + kind.label() + "] "@ + message,
        (ErrorView { kind: Some(kind), context, message }).rendered() == context + "["@
            + kind.label() + "] "@ + message,
        (ErrorView { kind: None, context, message }).rendered() == context + message,
{
    assert(ErrorView::plain(message).rendered() =~= message);
    assert(ErrorView::classified(kind, message).rendered() =~= "["@ + kind.label() + "] "@
        + message);
}

/// The names of the kinds.
pub proof fn law_names_of_the_kinds()
    ensures
        FailureKind::RateLimited.label() == "RateLimited"@,
        FailureKind::Congestion.label() == "Congestion"@,
        FailureKind::Network.label() == "Network"@,
        FailureKind::ShallowUnsupported.label() == "ShallowUnsupported"@,
        FailureKind::Fatal.label() == "Fatal"@,
{
}

/// A failure is handled by its kind, whatever was being done; one without a kind is
/// fatal.
pub proof fn law_unclassified_is_fatal(e: ErrorView)
    ensures
        e.kind matches Some(k) ==> e.handled_as() == k,
        e.kind is None ==> e.handled_as() == FailureKind::Fatal,
{
}

/// What an error is spoken of by: the kind and the message that it was made with, and
/// what was being done.
pub proof fn law_what_an_error_says(e: Error, r: RgcError)
    ensures
        match r {
            RgcError::RateLimited(m) => r@ == (FailureKind::RateLimited, m@),
            RgcError::Congestion(m) => r@ == (FailureKind::Congestion, m@),
            RgcError::Network(m) => r@ == (FailureKind::Network, m@),
            RgcError::ShallowUnsupported(m) => r@ == (FailureKind::ShallowUnsupported, m@),
            RgcError::Fatal(m) => r@ == (FailureKind::Fatal, m@),
        },
        match e {
            Error::Rgc(r) => e@.kind == Some(r@.0) && e@.message == r@.1 && e@.context.len() == 0,
            Error::During(c, r) => e@.kind == Some(r@.0) && e@.message == r@.1 && e@.context
                == c@,
            Error::Other(m) => e@.kind is None && e@.message == m@ && e@.context.len() == 0,
        },
{
}

/// A classified failure stays what it is when it becomes an error.
pub proof fn law_failures_become_errors(e: RgcError)
    ensures
        <Error as vstd::std_specs::convert::FromSpec<RgcError>>::from_spec(e)@ == ErrorView::classified(e@.0, e@.1),
{
}

} // verus!
