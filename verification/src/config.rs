//! The configuration of the pipeline and the commands that start its plugins.
//!
//! Plugins are listed in configuration order, which decides their ports.

use vstd::prelude::*;

verus! {

/// The whole configuration.
pub struct Config {
    /// The host that every listener binds to.
    pub bind_addr: String,
    /// The first port of the range that the plugins' listeners take.
    pub bind_port_range_start: u16,
    /// The port on which an observer may attach.
    pub bind_port_gui: u16,
    /// The data plugins by name, in configuration order.
    pub data_plugins: Vec<(String, PluginConfig)>,
    /// The input plugins by name, in configuration order.
    pub input_plugins: Vec<(String, PluginConfig)>,
}

/// How one plugin is started.
pub struct PluginConfig {
    /// The executable, followed by its arguments.
    pub command: Vec<String>,
    /// Variables added to the environment of the plugin's process.
    pub environment: Option<Vec<(String, String)>>,
    pub working_directory: String,
}

/// Why a configuration cannot be used.
#[derive(Debug, Clone, Copy, PartialEq, Eq)]
pub enum ConfigError {
    /// A plugin's command is empty.
    EmptyCommand,
    /// A plugin's port would lie beyond the last port there is.
    PortOutOfRange,
}

impl ConfigError {
    /// What went wrong, in words.
    pub fn message(&self) -> (text: &'static str)
        ensures
            text@ == match *self {
                ConfigError::EmptyCommand => "command must name an executable"@,
                ConfigError::PortOutOfRange => "plugin port exceeds the port range"@,
            },
    {
        match self {
            ConfigError::EmptyCommand => "command must name an executable",
            ConfigError::PortOutOfRange => "plugin port exceeds the port range",
        }
    }
}

/// The text of each string.
pub open spec fn texts(strings: Seq<String>) -> Seq<Seq<char>> {
    strings.map_values(|s: String| s@)
}

/// The text of each pair of strings.
pub open spec fn text_pairs(pairs: Seq<(String, String)>) -> Seq<(Seq<char>, Seq<char>)> {
    pairs.map_values(|p: (String, String)| (p.0@, p.1@))
}

/// A process to start: the executable, its arguments, the variables to add
/// to its environment in this order (a later one overrides an earlier one of
/// the same name), and the directory to start it in.
#[derive(Debug, PartialEq, Eq)]
pub struct Command {
    pub program: String,
    pub arguments: Vec<String>,
    pub environment: Vec<(String, String)>,
    pub working_directory: String,
}

/// What a command holds.
pub struct CommandView {
    pub program: Seq<char>,
    pub arguments: Seq<Seq<char>>,
    pub environment: Seq<(Seq<char>, Seq<char>)>,
    pub working_directory: Seq<char>,
}

impl View for Command {
    type V = CommandView;

    open spec fn view(&self) -> CommandView {
        CommandView {
            program: self.program@,
            arguments: texts(self.arguments@),
            environment: text_pairs(self.environment@),
            working_directory: self.working_directory@,
        }
    }
}

/// The command that a plugin's configuration describes; the configuration
/// must name an executable.
pub open spec fn command_of(config: PluginConfig) -> CommandView
    recommends
        config.command.len() >= 1,
{
    CommandView {
        program: config.command[0]@,
        arguments: texts(config.command@).skip(1),
        environment: match config.environment {
            Some(variables) => text_pairs(variables@),
            None => Seq::empty(),
        },
        working_directory: config.working_directory@,
    }
}

/// A copy of the pairs.
fn copy_pairs(pairs: &Vec<(String, String)>) -> (copy: Vec<(String, String)>)
    ensures
        text_pairs(copy@) == text_pairs(pairs@),
{
    let mut copy: Vec<(String, String)> = Vec::new();
    let mut i: usize = 0;
    while i < pairs.len()
        invariant
            i <= pairs.len(),
            copy.len() == i,
            forall|k: int|
                0 <= k < i ==> (#[trigger] copy[k]).0@ == pairs[k].0@ && copy[k].1@ == pairs[k].1@,
        decreases pairs.len() - i,
    {
        copy.push((pairs[i].0.clone(), pairs[i].1.clone()));
        i += 1;
    }
    assert(text_pairs(copy@) =~= text_pairs(pairs@));
    copy
}

impl Command {
    /// The command that starts a plugin. A configuration whose command is
    /// empty names no executable and is refused.
    pub fn try_from(config: &PluginConfig) -> (command: Result<Command, ConfigError>)
        ensures
            match command {
                Ok(c) => config.command.len() >= 1 && c@ == command_of(*config),
                Err(e) => config.command.len() == 0 && e == ConfigError::EmptyCommand,
            },
    {
        if config.command.len() < 1 {
            return Err(ConfigError::EmptyCommand);
        }
        let program = config.command[0].clone();
        let mut arguments: Vec<String> = Vec::new();
        let mut i: usize = 1;
        while i < config.command.len()
            invariant
                1 <= i <= config.command.len(),
                arguments.len() == i - 1,
                forall|k: int| 0 <= k < i - 1 ==> (#[trigger] arguments[k])@ == config.command[k + 1]@,
            decreases config.command.len() - i,
        {
            arguments.push(config.command[i].clone());
            i += 1;
        }
        assert(texts(arguments@) =~= texts(config.command@).skip(1));
        let environment = match &config.environment {
            None => {
                let none: Vec<(String, String)> = Vec::new();
                assert(text_pairs(none@) =~= Seq::empty());
                none
            },
            Some(variables) => copy_pairs(variables),
        };
        let working_directory = config.working_directory.clone();
        Ok(Command { program, arguments, environment, working_directory })
    }
}

} // verus!
