//! The plugin and its one command, as the host sees them.

use vstd::prelude::*;
use crate::pipeline::OutputFormat;

verus! {

/// The plugin.
#[derive(Clone, Copy, Debug, PartialEq, Eq)]
pub struct GitqlPlugin;

/// The command `gitql`.
#[derive(Clone, Copy, Debug, PartialEq, Eq)]
pub struct Gitql;

/// What a query runs with.
#[derive(Debug, PartialEq)]
pub struct Arguments {
    pub repos: Vec<String>,
    pub output_format: OutputFormat,
    pub pagination: bool,
    pub page_size: usize,
    pub analysis: bool,
}

/// An example of the command's use.
#[derive(Clone, Copy, Debug, PartialEq, Eq)]
pub struct CommandExample {
    pub example: &'static str,
    pub description: &'static str,
}

/// The one parameter of the command: a required string at the first
/// position.
#[derive(Clone, Copy, Debug, PartialEq, Eq)]
pub struct CommandSignature {
    pub name: &'static str,
    pub required: &'static str,
    pub required_description: &'static str,
}

impl GitqlPlugin {
    /// The version of the plugin, which the host is told.
    pub fn version(&self) -> (version: &'static str)
        ensures
            version@ == "0.1.0"@,
    {
        "0.1.0"
    }

    /// The commands of the plugin: `gitql` alone.
    pub fn commands(&self) -> (commands: Vec<Gitql>)
        ensures
            commands@.len() == 1,
    {
        let mut commands: Vec<Gitql> = Vec::new();
        commands.push(Gitql);
        commands
    }
}

impl Gitql {
    /// The name of the command.
    pub fn name(&self) -> (name: &'static str)
        ensures
            name@ == "gitql"@,
    {
        "gitql"
    }

    /// What the command does, in one sentence.
    pub fn description(&self) -> (text: &'static str)
        ensures
            text@ == "Use gitql to query git repositories"@,
    {
        "Use gitql to query git repositories"
    }

    /// The signature of the command: its name, and the query as its one
    /// required parameter.
    pub fn signature(&self) -> (signature: CommandSignature)
        ensures
            signature.name@ == "gitql"@,
            signature.required@ == "query"@,
            signature.required_description@ == "gitql query string"@,
    {
        CommandSignature {
            name: self.name(),
            required: "query",
            required_description: "gitql query string",
        }
    }

    /// The examples of the command, in the order in which the host lists
    /// them.
    pub fn examples(&self) -> (examples: Vec<CommandExample>)
        ensures
            examples@.len() == 4,
            examples@[0].example@ == "gitql 'show tables'"@,
            examples@[0].description@ == "Show the tables available to be queried"@,
            examples@[1].example@ == "gitql 'select * from refs limit 10'"@,
            examples@[1].description@ == "Show the first 10 refs"@,
            examples@[2].example@ == "gitql 'desribe commits'"@,
            examples@[2].description@ == "Show the data types of the fields in the commits table"@,
            examples@[3].example@
                == "gitql 'SELECT title, datetime FROM commits WHERE commit_conventional(title) = \"feat\"'"@,
            examples@[3].description@
                == "Show title and datetime of commits with conventional title 'feat' using the only function commit_convetional()"@,
    {
        let mut examples: Vec<CommandExample> = Vec::new();
        examples.push(
            CommandExample {
                example: "gitql 'show tables'",
                description: "Show the tables available to be queried",
            },
        );
        examples.push(
            CommandExample {
                example: "gitql 'select * from refs limit 10'",
                description: "Show the first 10 refs",
            },
        );
        examples.push(
            CommandExample {
                example: "gitql 'desribe commits'",
                description: "Show the data types of the fields in the commits table",
            },
        );
        examples.push(
            CommandExample {
                example: "gitql 'SELECT title, datetime FROM commits WHERE commit_conventional(title) = \"feat\"'",
                description: "Show title and datetime of commits with conventional title 'feat' using the only function commit_convetional()",
            },
        );
        examples
    }

    /// The arguments that the command runs a query with: the directory the
    /// host is in as the one repository, rendering as records, no pages, a
    /// page size of 10 and no analysis.
    pub fn arguments(&self, current_dir: String) -> (arguments: Arguments)
        ensures
            arguments.repos@.len() == 1,
            arguments.repos@[0]@ == current_dir@,
            arguments.output_format == OutputFormat::Render,
            !arguments.pagination,
            arguments.page_size == 10,
            !arguments.analysis,
    {
        let mut repos: Vec<String> = Vec::new();
        repos.push(current_dir);
        Arguments {
            repos,
            output_format: OutputFormat::Render,
            pagination: false,
            page_size: 10,
            analysis: false,
        }
    }
}

} // verus!
