//! What input and data plugins share: the listener that a plugin calls back
//! on, the process that runs it, and whether both are still alive.
//!
//! A [`Plugin`] is the record of one supervised plugin. Binding the listener
//! and starting the process are the caller's business; the record says where
//! to bind and what to start, and keeps what was observed of the two since.

use crate::config::{command_of, text_pairs, Command, CommandView, Config, ConfigError, PluginConfig};
use vstd::prelude::*;
use vstd::string::StringExecFns;

verus! {

/// The two kinds of plugin.
#[derive(Debug, Clone, Copy, PartialEq, Eq)]
pub enum PluginKind {
    /// Produces frames.
    Input,
    /// Consumes frames and returns one result for each.
    Data,
}

/// Which half of a plugin was found to have stopped.
#[derive(Debug, Clone, Copy, PartialEq, Eq)]
pub enum PluginStoppedReason {
    /// The thread that serves the plugin's connection has finished.
    SocketThread,
    /// The plugin's process has exited.
    PluginProcess,
}

/// The decimal digit of a number below ten.
pub open spec fn digit(d: nat) -> char
    recommends
        d < 10,
{
    if d == 0 {
        '0'
    } else if d == 1 {
        '1'
    } else if d == 2 {
        '2'
    } else if d == 3 {
        '3'
    } else if d == 4 {
        '4'
    } else if d == 5 {
        '5'
    } else if d == 6 {
        '6'
    } else if d == 7 {
        '7'
    } else if d == 8 {
        '8'
    } else {
        '9'
    }
}

/// A number in decimal, without leading zeros.
pub open spec fn decimal(n: nat) -> Seq<char>
    decreases n,
{
    if n < 10 {
        seq![digit(n)]
    } else {
        decimal(n / 10).push(digit(n % 10))
    }
}

/// The port of the plugin at position `index` among those of its kind: the
/// input plugins take the first ports of the range, the data plugins the
/// ports that follow.
pub open spec fn port_of(start: u16, inputs: nat, kind: PluginKind, index: nat) -> nat {
    start as nat + (if kind == PluginKind::Data {
        inputs
    } else {
        0
    }) + index
}

/// The address that a listener binds to: host, colon, port.
pub open spec fn address_of(host: Seq<char>, port: u16) -> Seq<char> {
    host + seq![':'] + decimal(port as nat)
}

/// The command that starts a plugin: what its configuration describes, with
/// the listener's host and port added to the environment.
pub open spec fn launch_of(config: PluginConfig, host: Seq<char>, port: u16) -> CommandView
    recommends
        config.command.len() >= 1,
{
    CommandView {
        environment: command_of(config).environment.push(("PALLEON_HOST"@, host)).push(
            ("PALLEON_PORT"@, decimal(port as nat)),
        ),
        ..command_of(config)
    }
}

/// One supervised plugin.
pub struct Plugin {
    name: String,
    kind: PluginKind,
    bind_host: String,
    bind_port: u16,
    command: Command,
    stopped: Option<PluginStoppedReason>,
}

/// What a plugin's record holds.
pub struct PluginView {
    pub name: Seq<char>,
    pub kind: PluginKind,
    /// The host of the listener that the plugin calls back on.
    pub bind_host: Seq<char>,
    /// The port of that listener.
    pub bind_port: u16,
    /// The process to start.
    pub command: CommandView,
    /// What has been observed to have stopped, if anything.
    pub stopped: Option<PluginStoppedReason>,
}

impl View for Plugin {
    type V = PluginView;

    closed spec fn view(&self) -> PluginView {
        PluginView {
            name: self.name@,
            kind: self.kind,
            bind_host: self.bind_host@,
            bind_port: self.bind_port,
            command: self.command@,
            stopped: self.stopped,
        }
    }
}

/// The record of a plugin that has just been planned: nothing has stopped.
pub open spec fn planned(
    name: Seq<char>,
    kind: PluginKind,
    host: Seq<char>,
    port: u16,
    config: PluginConfig,
) -> PluginView
    recommends
        config.command.len() >= 1,
{
    PluginView {
        name,
        kind,
        bind_host: host,
        bind_port: port,
        command: launch_of(config, host, port),
        stopped: None,
    }
}

/// What is known to have stopped after an observation: a finished socket
/// thread is reported before an exited process, and what was known before
/// stays known where the observation shows nothing.
pub open spec fn observed(
    before: Option<PluginStoppedReason>,
    socket_thread_finished: bool,
    plugin_process_exited: bool,
) -> Option<PluginStoppedReason> {
    if socket_thread_finished {
        Some(PluginStoppedReason::SocketThread)
    } else if plugin_process_exited {
        Some(PluginStoppedReason::PluginProcess)
    } else {
        before
    }
}

fn digit_text(d: u16) -> (text: &'static str)
    requires
        d < 10,
    ensures
        text@ == seq![digit(d as nat)],
{
    proof {
        reveal_strlit("0");
        reveal_strlit("1");
        reveal_strlit("2");
        reveal_strlit("3");
        reveal_strlit("4");
        reveal_strlit("5");
        reveal_strlit("6");
        reveal_strlit("7");
        reveal_strlit("8");
        reveal_strlit("9");
    }
    let text = if d == 0 {
        "0"
    } else if d == 1 {
        "1"
    } else if d == 2 {
        "2"
    } else if d == 3 {
        "3"
    } else if d == 4 {
        "4"
    } else if d == 5 {
        "5"
    } else if d == 6 {
        "6"
    } else if d == 7 {
        "7"
    } else if d == 8 {
        "8"
    } else {
        "9"
    };
    assert(text@ =~= seq![digit(d as nat)]);
    text
}

/// A port number in decimal.
pub fn port_text(port: u16) -> (text: String)
    ensures
        text@ == decimal(port as nat),
    decreases port,
{
    if port < 10 {
        String::from_str(digit_text(port))
    } else {
        let mut text = port_text(port / 10);
        text.append(digit_text(port % 10));
        text
    }
}

/// The port of the plugin at position `index` among those of its kind, or
/// `None` where that port would lie beyond the last port there is.
pub fn plugin_port(config: &Config, kind: PluginKind, index: usize) -> (port: Option<u16>)
    ensures
        match port {
            Some(p) => p == port_of(
                config.bind_port_range_start,
                config.input_plugins.len() as nat,
                kind,
                index as nat,
            ),
            None => port_of(
                config.bind_port_range_start,
                config.input_plugins.len() as nat,
                kind,
                index as nat,
            ) > u16::MAX,
        },
{
    let offset: usize = match kind {
        PluginKind::Input => 0,
        PluginKind::Data => config.input_plugins.len(),
    };
    let room: usize = (u16::MAX - config.bind_port_range_start) as usize;
    if offset > room || index > room - offset {
        None
    } else {
        Some(config.bind_port_range_start + (offset + index) as u16)
    }
}

/// The address that a listener on `host` and `port` binds to.
pub fn listener_address(host: &String, port: u16) -> (address: String)
    ensures
        address@ == address_of(host@, port),
{
    proof {
        reveal_strlit(":");
    }
    let mut address = host.clone();
    address.append(":");
    let digits = port_text(port);
    address.append(digits.as_str());
    assert(address@ =~= address_of(host@, port));
    address
}

impl Plugin {
    /// Plans a plugin: where its listener binds and how its process is
    /// started, with `PALLEON_HOST` and `PALLEON_PORT` in the environment
    /// pointing back at the listener. A configuration whose command is empty
    /// is refused.
    pub fn new(
        name: &String,
        kind: PluginKind,
        bind_addr: &String,
        bind_port: u16,
        plugin: &PluginConfig,
    ) -> (planned_plugin: Result<Plugin, ConfigError>)
        ensures
            match planned_plugin {
                Ok(p) => plugin.command.len() >= 1 && p@ == planned(
                    name@,
                    kind,
                    bind_addr@,
                    bind_port,
                    *plugin,
                ),
                Err(e) => plugin.command.len() == 0 && e == ConfigError::EmptyCommand,
            },
    {
        let mut command = match Command::try_from(plugin) {
            Ok(command) => command,
            Err(e) => {
                return Err(e);
            },
        };
        let ghost configured = command.environment@;
        command.environment.push((String::from_str("PALLEON_HOST"), bind_addr.clone()));
        command.environment.push((String::from_str("PALLEON_PORT"), port_text(bind_port)));
        assert(text_pairs(command.environment@) =~= text_pairs(configured).push(
            ("PALLEON_HOST"@, bind_addr@),
        ).push(("PALLEON_PORT"@, decimal(bind_port as nat))));
        Ok(
            Plugin {
                name: name.clone(),
                kind,
                bind_host: bind_addr.clone(),
                bind_port,
                command,
                stopped: None,
            },
        )
    }

    pub fn name(&self) -> (name: &String)
        ensures
            name@ == self@.name,
    {
        &self.name
    }

    pub fn kind(&self) -> (kind: PluginKind)
        ensures
            kind == self@.kind,
    {
        self.kind
    }

    pub fn bind_host(&self) -> (host: &String)
        ensures
            host@ == self@.bind_host,
    {
        &self.bind_host
    }

    pub fn bind_port(&self) -> (port: u16)
        ensures
            port == self@.bind_port,
    {
        self.bind_port
    }

    pub fn command(&self) -> (command: &Command)
        ensures
            command@ == self@.command,
    {
        &self.command
    }

    /// The address that the plugin's listener binds to.
    pub fn bind_address(&self) -> (address: String)
        ensures
            address@ == address_of(self@.bind_host, self@.bind_port),
    {
        listener_address(&self.bind_host, self.bind_port)
    }

    /// Records what was just observed of the plugin's socket thread and of
    /// its process. What has stopped is never forgotten.
    pub fn observe(&mut self, socket_thread_finished: bool, plugin_process_exited: bool)
        ensures
            final(self)@ == (PluginView {
                stopped: observed(
                    old(self)@.stopped,
                    socket_thread_finished,
                    plugin_process_exited,
                ),
                ..old(self)@
            }),
            old(self)@.stopped.is_some() ==> final(self)@.stopped.is_some(),
    {
        if socket_thread_finished {
            self.stopped = Some(PluginStoppedReason::SocketThread);
        } else if plugin_process_exited {
            self.stopped = Some(PluginStoppedReason::PluginProcess);
        }
    }

    /// Has the socket thread or the process stopped, as far as observed?
    pub fn has_erroneously_stopped(&self) -> (reason: Option<PluginStoppedReason>)
        ensures
            reason == self@.stopped,
    {
        self.stopped
    }
}

/// The plugins of one kind, in configuration order.
pub open spec fn plugins_of(config: Config, kind: PluginKind) -> Seq<(String, PluginConfig)> {
    if kind == PluginKind::Data {
        config.data_plugins@
    } else {
        config.input_plugins@
    }
}

/// The record planned for the plugin at position `index` among those of its
/// kind, or why there is none: its port lies beyond the last port, or its
/// command is empty.
pub open spec fn plan_at(config: Config, kind: PluginKind, index: int) -> Result<
    PluginView,
    ConfigError,
> {
    let port = port_of(
        config.bind_port_range_start,
        config.input_plugins.len() as nat,
        kind,
        index as nat,
    );
    let entry = plugins_of(config, kind)[index];
    if port > u16::MAX {
        Err(ConfigError::PortOutOfRange)
    } else if entry.1.command.len() == 0 {
        Err(ConfigError::EmptyCommand)
    } else {
        Ok(planned(entry.0@, kind, config.bind_addr@, port as u16, entry.1))
    }
}

/// Plans every plugin of one kind, in configuration order. The first plugin
/// that cannot be planned decides the error.
pub fn plan(config: &Config, kind: PluginKind) -> (plugins: Result<Vec<Plugin>, ConfigError>)
    ensures
        match plugins {
            Ok(planned_plugins) => {
                &&& planned_plugins.len() == plugins_of(*config, kind).len()
                &&& forall|i: int|
                    0 <= i < planned_plugins.len() ==> #[trigger] plan_at(*config, kind, i) == Ok::<
                        PluginView,
                        ConfigError,
                    >(planned_plugins[i]@)
            },
            Err(e) => exists|i: int|
                {
                    &&& 0 <= i < plugins_of(*config, kind).len()
                    &&& #[trigger] plan_at(*config, kind, i) == Err::<PluginView, ConfigError>(e)
                    &&& forall|k: int| 0 <= k < i ==> (#[trigger] plan_at(*config, kind, k)).is_ok()
                },
        },
{
    let entries = match kind {
        PluginKind::Data => &config.data_plugins,
        PluginKind::Input => &config.input_plugins,
    };
    let mut plugins: Vec<Plugin> = Vec::new();
    let mut i: usize = 0;
    while i < entries.len()
        invariant
            i <= entries.len(),
            entries@ == plugins_of(*config, kind),
            plugins.len() == i,
            forall|k: int|
                0 <= k < i ==> #[trigger] plan_at(*config, kind, k) == Ok::<PluginView, ConfigError>(
                    plugins[k]@,
                ),
        decreases entries.len() - i,
    {
        let port = match plugin_port(config, kind, i) {
            Some(port) => port,
            None => {
                assert(plan_at(*config, kind, i as int) == Err::<PluginView, ConfigError>(
                    ConfigError::PortOutOfRange,
                ));
                return Err(ConfigError::PortOutOfRange);
            },
        };
        match Plugin::new(&entries[i].0, kind, &config.bind_addr, port, &entries[i].1) {
            Ok(plugin) => {
                assert(plan_at(*config, kind, i as int) == Ok::<PluginView, ConfigError>(plugin@));
                plugins.push(plugin);
            },
            Err(e) => {
                assert(plan_at(*config, kind, i as int) == Err::<PluginView, ConfigError>(e));
                return Err(e);
            },
        }
        i += 1;
    }
    Ok(plugins)
}

} // verus!
