//! The command line, as plain values: global options and the commands with their arguments.
use vstd::prelude::*;

verus! {

/// How results are printed.
#[derive(PartialEq, Eq, Structural, Clone, Copy, Debug)]
pub enum OutputFormat {
    Json,
    Pretty,
    Raw,
    Table,
}

/// The parsed command line.
pub struct Cli {
    /// Print less.
    pub quiet: bool,
    /// How many times `--verbose` was given.
    pub verbose: u8,
    /// Account to use instead of the active one.
    pub profile: Option<String>,
    /// How results are printed.
    pub output: OutputFormat,
    /// The command to run.
    pub command: Command,
}

/// How an account authenticates.
#[derive(PartialEq, Eq, Structural, Clone, Copy, Debug)]
pub enum AuthModeKind {
    Session,
    Token,
}

/// The commands.
pub enum Command {
    Manual,
    Info,
    Changelog { count: usize },
    Auth { cmd: AuthCommand },
    Account { cmd: AccountCommand },
    Config { cmd: ConfigCommand },
    Doctype { cmd: DoctypeCommand },
    File { cmd: FileCommand },
    CallMethod { method: String, args: Option<Vec<String>> },
    Attachments { doctype: String, name: String },
    Search { query: String, limit: u32, doctype: Option<String> },
}

/// Session commands.
#[derive(PartialEq, Eq, Structural, Clone, Copy, Debug)]
pub enum AuthCommand {
    Login,
    Logout,
    Status,
    Whoami,
}

/// Account management commands.
pub enum AccountCommand {
    Add {
        name: String,
        url: Option<String>,
        mode: AuthModeKind,
        email: Option<String>,
        password: Option<String>,
        api_key: Option<String>,
        api_secret: Option<String>,
        sitename: Option<String>,
        activate: bool,
    },
    List,
    Use { name: String },
    Remove { name: String },
    Show { name: Option<String> },
}

/// Settings commands.
pub enum ConfigCommand {
    SetValue { key: String, value: String },
    Get { key: String },
    List,
    Init,
    Path,
}

/// Document commands.
pub enum DoctypeCommand {
    Get { doctype: String, name: String },
    List {
        doctype: String,
        fields: Option<Vec<String>>,
        filter: Option<Vec<String>>,
        limit: u32,
        start: u32,
        order_by: Option<String>,
    },
    Create { doctype: String, file: String },
    Update { doctype: String, name: String, file: String },
    Delete { doctype: String, name: String, yes: bool },
}

/// File commands.
pub enum FileCommand {
    Upload { file: String, doctype: String, docname: String, fieldname: String },
    Download { url: String, output: Option<String>, yes: bool },
}

} // verus!
