//! The command-line client's errors, their messages and their exit codes.
use vstd::prelude::*;
use crate::text::push_text;

verus! {

/// An underlying failure carried by an error: its message and the messages of the
/// failures that caused it, nearest first.
#[derive(Debug)]
pub struct Cause {
    pub message: String,
    pub sources: Vec<String>,
}

impl Cause {
    /// The messages of the causes, as texts.
    pub open spec fn source_texts(self) -> Seq<Seq<char>> {
        self.sources@.map_values(|s: String| s@)
    }
}

/// What the client needs to know of a failure reported by the JSS client library.
#[derive(PartialEq, Eq, Structural, Clone, Copy, Debug)]
pub enum JssKind {
    /// The library reported that there is no active session.
    NotAuthenticated,
    /// Any other failure.
    Other,
}

/// Errors of the command-line client.
#[derive(Debug)]
pub enum CliError {
    Usage(String),
    Config(String),
    Io(Cause),
    Json(Cause),
    TomlSer(Cause),
    TomlDe(Cause),
    Network(String),
    Api(String),
    NotAuthenticated,
    AccountNotFound(String),
    SessionExpired,
    Aborted,
    Other(String),
    Jss(Cause, JssKind),
    Parse(String),
}

/// Result of a client operation.
pub type CliResult<T> = Result<T, CliError>;

/// The one-line message of an error.
pub open spec fn display(e: CliError) -> Seq<char> {
    match e {
        CliError::Usage(s) => "Usage error: "@ + s@,
        CliError::Config(s) => "Configuration error: "@ + s@,
        CliError::Io(c) => "I/O error: "@ + c.message@,
        CliError::Json(c) => "JSON error: "@ + c.message@,
        CliError::TomlSer(c) => "TOML serialization error: "@ + c.message@,
        CliError::TomlDe(c) => "TOML deserialization error: "@ + c.message@,
        CliError::Network(s) => "Network error: "@ + s@,
        CliError::Api(s) => "API error: "@ + s@,
        CliError::NotAuthenticated => "Not authenticated. Run `jsscli auth login` first."@,
        CliError::AccountNotFound(s) => "Account not found: "@ + s@,
        CliError::SessionExpired => "Session expired or invalid"@,
        CliError::Aborted => "Operation aborted by user"@,
        CliError::Other(s) => s@,
        CliError::Jss(c, _) => c.message@,
        CliError::Parse(s) => "Data parsing error: "@ + s@,
    }
}

/// The messages of the chain of causes of an error, nearest first. An error that
/// wraps an underlying failure has that failure as its first cause; a JSS failure
/// stands for itself, so its chain is that of its own causes.
pub open spec fn source_chain(e: CliError) -> Seq<Seq<char>> {
    match e {
        CliError::Io(c) => seq![c.message@] + c.source_texts(),
        CliError::Json(c) => seq![c.message@] + c.source_texts(),
        CliError::TomlSer(c) => seq![c.message@] + c.source_texts(),
        CliError::TomlDe(c) => seq![c.message@] + c.source_texts(),
        CliError::Jss(c, _) => c.source_texts(),
        _ => Seq::empty(),
    }
}

/// The text that introduces each cause.
pub open spec fn cause_prefix() -> Seq<char> {
    "\n  \u{2192} "@
}

/// The causes, each on its own line.
pub open spec fn chain_text(chain: Seq<Seq<char>>) -> Seq<char>
    decreases chain.len(),
{
    if chain.len() == 0 {
        Seq::empty()
    } else {
        chain_text(chain.drop_last()) + cause_prefix() + chain.last()
    }
}

/// The advice appended to an error.
pub open spec fn hint(e: CliError) -> Seq<char> {
    match e {
        CliError::NotAuthenticated => "\n\nhint: Run `jsscli account add` then `jsscli auth login`."@,
        CliError::AccountNotFound(name) => "\n\nhint: Run `jsscli account list` to see available accounts, or `jsscli account add "@
            + name@ + "` to create one."@,
        CliError::Jss(_, JssKind::NotAuthenticated) => "\n\nhint: The session has expired. Run `jsscli auth login`."@,
        _ => Seq::empty(),
    }
}

/// The full report of an error: its message, its causes and any advice.
pub open spec fn report(e: CliError) -> Seq<char> {
    display(e) + chain_text(source_chain(e)) + hint(e)
}

/// The process exit code for an error.
pub open spec fn exit_code_spec(e: CliError) -> i32 {
    match e {
        CliError::Usage(_) => 2,
        CliError::NotAuthenticated => 3,
        CliError::Network(_) => 4,
        CliError::Api(_) => 5,
        _ => 1,
    }
}

/// Appends the message of an error to `out`.
fn push_display(out: &mut String, e: &CliError)
    ensures
        final(out)@ == old(out)@ + display(*e),
{
    match e {
        CliError::Usage(s) => {
            push_text(out, "Usage error: ");
            push_text(out, s.as_str());
        },
        CliError::Config(s) => {
            push_text(out, "Configuration error: ");
            push_text(out, s.as_str());
        },
        CliError::Io(c) => {
            push_text(out, "I/O error: ");
            push_text(out, c.message.as_str());
        },
        CliError::Json(c) => {
            push_text(out, "JSON error: ");
            push_text(out, c.message.as_str());
        },
        CliError::TomlSer(c) => {
            push_text(out, "TOML serialization error: ");
            push_text(out, c.message.as_str());
        },
        CliError::TomlDe(c) => {
            push_text(out, "TOML deserialization error: ");
            push_text(out, c.message.as_str());
        },
        CliError::Network(s) => {
            push_text(out, "Network error: ");
            push_text(out, s.as_str());
        },
        CliError::Api(s) => {
            push_text(out, "API error: ");
            push_text(out, s.as_str());
        },
        CliError::NotAuthenticated => {
            push_text(out, "Not authenticated. Run `jsscli auth login` first.");
        },
        CliError::AccountNotFound(s) => {
            push_text(out, "Account not found: ");
            push_text(out, s.as_str());
        },
        CliError::SessionExpired => {
            push_text(out, "Session expired or invalid");
        },
        CliError::Aborted => {
            push_text(out, "Operation aborted by user");
        },
        CliError::Other(s) => {
            push_text(out, s.as_str());
        },
        CliError::Jss(c, _) => {
            push_text(out, c.message.as_str());
        },
        CliError::Parse(s) => {
            push_text(out, "Data parsing error: ");
            push_text(out, s.as_str());
        },
    }
    proof {
        assert(final(out)@ =~= old(out)@ + display(*e));
    }
}

/// Appends the causes of `c`, each on its own line.
fn push_sources(out: &mut String, c: &Cause)
    ensures
        final(out)@ == old(out)@ + chain_text(c.source_texts()),
{
    let ghost start = out@;
    let mut i: usize = 0;
    while i < c.sources.len()
        invariant
            i <= c.sources@.len(),
            out@ == start + chain_text(c.source_texts().take(i as int)),
        decreases c.sources@.len() - i,
    {
        push_text(out, "\n  \u{2192} ");
        push_text(out, c.sources[i].as_str());
        proof {
            let t = c.source_texts().take(i + 1);
            assert(t.drop_last() =~= c.source_texts().take(i as int));
            assert(out@ =~= start + chain_text(t));
        }
        i = i + 1;
    }
    proof {
        assert(c.source_texts().take(i as int) =~= c.source_texts());
    }
}

proof fn lemma_chain_text_prepend(first: Seq<char>, rest: Seq<Seq<char>>)
    ensures
        chain_text(seq![first] + rest) == cause_prefix() + first + chain_text(rest),
    decreases rest.len(),
{
    if rest.len() == 0 {
        let one = seq![first];
        assert(seq![first] + rest =~= one);
        assert(one.drop_last() =~= Seq::<Seq<char>>::empty());
        assert(one.last() == first);
        assert(chain_text(one) == chain_text(one.drop_last()) + cause_prefix() + one.last());
        assert(chain_text(Seq::<Seq<char>>::empty()) =~= Seq::<char>::empty());
        assert(chain_text(one) =~= cause_prefix() + first);
        assert(chain_text(rest) =~= Seq::<char>::empty());
        assert(cause_prefix() + first + chain_text(rest) =~= cause_prefix() + first);
    } else {
        lemma_chain_text_prepend(first, rest.drop_last());
        assert((seq![first] + rest).drop_last() =~= seq![first] + rest.drop_last());
        assert(chain_text(seq![first] + rest) =~= cause_prefix() + first + chain_text(rest));
    }
}

/// Appends the causes of an error.
fn push_chain(out: &mut String, e: &CliError)
    ensures
        final(out)@ == old(out)@ + chain_text(source_chain(*e)),
{
    match e {
        CliError::Io(c) | CliError::Json(c) | CliError::TomlSer(c) | CliError::TomlDe(c) => {
            let ghost start = out@;
            push_text(out, "\n  \u{2192} ");
            push_text(out, c.message.as_str());
            push_sources(out, c);
            proof {
                lemma_chain_text_prepend(c.message@, c.source_texts());
                assert(out@ =~= start + chain_text(source_chain(*e)));
            }
        },
        CliError::Jss(c, _) => {
            push_sources(out, c);
        },
        _ => {
            proof {
                assert(out@ =~= old(out)@ + chain_text(source_chain(*e)));
            }
        },
    }
}

/// Appends the advice for an error.
fn push_hint(out: &mut String, e: &CliError)
    ensures
        final(out)@ == old(out)@ + hint(*e),
{
    match e {
        CliError::NotAuthenticated => {
            push_text(out, "\n\nhint: Run `jsscli account add` then `jsscli auth login`.");
        },
        CliError::AccountNotFound(name) => {
            push_text(
                out,
                "\n\nhint: Run `jsscli account list` to see available accounts, or `jsscli account add ",
            );
            push_text(out, name.as_str());
            push_text(out, "` to create one.");
        },
        CliError::Jss(_, JssKind::NotAuthenticated) => {
            push_text(out, "\n\nhint: The session has expired. Run `jsscli auth login`.");
        },
        _ => {},
    }
    proof {
        assert(final(out)@ =~= old(out)@ + hint(*e));
    }
}

/// The one-line message of an error.
pub fn error_message(err: &CliError) -> (res: String)
    ensures
        res@ == display(*err),
{
    let mut out = String::new();
    push_display(&mut out, err);
    proof {
        assert(out@ =~= display(*err));
    }
    out
}

/// The full report of an error: its message, then each cause on a line of its own
/// after an arrow, then any advice on what to run.
pub fn format_error(err: &CliError) -> (res: String)
    ensures
        res@ == report(*err),
{
    let mut out = String::new();
    push_display(&mut out, err);
    push_chain(&mut out, err);
    push_hint(&mut out, err);
    proof {
        assert(out@ =~= report(*err));
    }
    out
}

/// The process exit code for an error: 2 for usage errors, 3 when not
/// authenticated, 4 for network errors, 5 for API errors and 1 otherwise.
pub fn exit_code(err: &CliError) -> (res: i32)
    ensures
        res == exit_code_spec(*err),
{
    match err {
        CliError::Usage(_) => 2,
        CliError::NotAuthenticated => 3,
        CliError::Network(_) => 4,
        CliError::Api(_) => 5,
        _ => 1,
    }
}

/// Every error ends the process with a nonzero code: 2 for usage errors, 3 when not
/// authenticated, 4 for network errors, 5 for API errors, and 1 for every other error,
/// failures of the JSS client library among them.
pub proof fn law_every_error_exits_nonzero(e: CliError)
    ensures
        exit_code_spec(e) != 0,
        1 <= exit_code_spec(e) <= 5,
        e is Usage ==> exit_code_spec(e) == 2,
        e is NotAuthenticated ==> exit_code_spec(e) == 3,
        e is Network ==> exit_code_spec(e) == 4,
        e is Api ==> exit_code_spec(e) == 5,
        e is Jss ==> exit_code_spec(e) == 1,
        !(e is Usage) && !(e is NotAuthenticated) && !(e is Network) && !(e is Api)
            ==> exit_code_spec(e) == 1,
{
}

} // verus!
