//! The command surface: the parsed argument set, the engine and output
//! selectors with their argument grammars, and the three operations a run
//! can perform. Argument collection and dispatching the selected operation
//! are the caller's concern; the decisions are here.

use vstd::prelude::*;

use crate::text::str_eq;

verus! {

/// The storage engine selected on the command line.
#[derive(Debug, Clone, Copy, PartialEq, Eq, Structural)]
pub enum SearchEngine {
    SQLite,
    File,
}

impl SearchEngine {
    /// Parses the engine selector: `sqlite`/`s` and `file`/`f` are the only
    /// accepted values; anything else is refused with a message naming it.
    pub fn from_arg_text(value: &str) -> (r: Result<SearchEngine, String>)
        ensures
            match r {
                Ok(e) => (e == SearchEngine::SQLite <==> (value@ == "sqlite"@ || value@ == "s"@))
                    && (e == SearchEngine::File <==> (value@ == "file"@ || value@ == "f"@)),
                Err(m) => value@ != "sqlite"@ && value@ != "s"@ && value@ != "file"@ && value@
                    != "f"@ && m@ == "unknown search engine: "@ + value@
                    + ", only support [sqlite, file]"@,
            },
    {
        proof {
            reveal_strlit("sqlite");
            reveal_strlit("s");
            reveal_strlit("file");
            reveal_strlit("f");
            assert("sqlite"@.len() == 6);
            assert("s"@.len() == 1);
            assert("file"@.len() == 4);
            assert("f"@.len() == 1);
            assert("s"@[0] == 's' && "f"@[0] == 'f');
        }
        if str_eq(value, "sqlite") || str_eq(value, "s") {
            Ok(SearchEngine::SQLite)
        } else if str_eq(value, "file") || str_eq(value, "f") {
            Ok(SearchEngine::File)
        } else {
            let m = String::from_str("unknown search engine: ").concat(value).concat(
                ", only support [sqlite, file]",
            );
            Err(m)
        }
    }
}

/// How results are rendered: plain text, an interactive terminal view, or
/// structured text.
#[derive(Debug, Clone, Copy, PartialEq, Eq, Structural)]
pub enum OutputFormat {
    Text,
    Terminal,
    Json,
}

impl OutputFormat {
    /// Parses the output selector: `text`/`t` and `json`/`j` pick those
    /// formats; any other value falls back to the terminal view.
    pub fn from_arg_text(value: &str) -> (r: Result<OutputFormat, String>)
        ensures
            r matches Ok(f) && (f == OutputFormat::Text <==> (value@ == "text"@ || value@ == "t"@))
                && (f == OutputFormat::Json <==> (value@ == "json"@ || value@ == "j"@)),
    {
        proof {
            reveal_strlit("text");
            reveal_strlit("t");
            reveal_strlit("json");
            reveal_strlit("j");
            assert("text"@.len() == 4);
            assert("json"@.len() == 4);
            assert("t"@.len() == 1);
            assert("j"@.len() == 1);
            assert("text"@[0] == 't' && "json"@[0] == 'j');
            assert("t"@[0] == 't' && "j"@[0] == 'j');
        }
        if str_eq(value, "text") || str_eq(value, "t") {
            Ok(OutputFormat::Text)
        } else if str_eq(value, "json") || str_eq(value, "j") {
            Ok(OutputFormat::Json)
        } else {
            Ok(OutputFormat::Terminal)
        }
    }
}

/// Re-ingest all remote content and replace the persisted dataset.
#[derive(Debug)]
pub struct SyncCommand {}

/// Sample one stored tip at random.
#[derive(Debug)]
pub struct RandomCommand {}

/// Search stored tips by keyword; the group filter is accepted but not
/// interpreted by the engines.
#[derive(Debug, Clone)]
pub struct SearchCommand {
    pub keyword: String,
    pub group: Option<String>,
}

/// The operation one invocation performs.
#[derive(Debug)]
pub enum SubCommands {
    Random(RandomCommand),
    Sync(SyncCommand),
    Search(SearchCommand),
}

/// The full argument set of one invocation.
#[derive(Debug)]
pub struct Args {
    pub version: bool,
    pub nested: Option<SubCommands>,
    pub engin: Option<SearchEngine>,
    pub path: Option<String>,
    pub output: Option<OutputFormat>,
    pub quiet: bool,
}

/// Runs the selected operation against the selected storage engine.
pub struct Manager {
    pub args: Args,
}

impl Manager {
    /// A manager over the given arguments.
    pub fn new(args: Args) -> (m: Self)
        ensures
            m.args == args,
    {
        Manager { args }
    }

    /// The output format of this run: the explicit selection, or the
    /// terminal view.
    pub fn output_format(&self) -> (f: OutputFormat)
        ensures
            match self.args.output {
                Option::Some(o) => f == o,
                Option::None => f == OutputFormat::Terminal,
            },
    {
        match self.args.output {
            Option::Some(o) => o,
            Option::None => OutputFormat::Terminal,
        }
    }
}

} // verus!
