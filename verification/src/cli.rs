//! What can be asked of the program.

use std::path::PathBuf;
use vstd::prelude::*;

verus! {

/// What was asked.
#[derive(Debug)]
pub enum Command {
    List,
    Login(LoginArgs),
    Import(ImportArgs),
    Switch(SwitchArgs),
    Remove(RemoveArgs),
    Status,
    Clean,
    Daemon(DaemonArgs),
    Config(ConfigArgs),
}

#[derive(Debug)]
pub struct LoginArgs {
    pub device_auth: bool,
}

#[derive(Debug)]
pub struct ImportArgs {
    pub path: Option<PathBuf>,
    pub alias: Option<String>,
    pub purge: bool,
    pub cpa: bool,
}

#[derive(Debug)]
pub struct SwitchArgs {
    pub query: Option<String>,
}

#[derive(Debug)]
pub struct RemoveArgs {
    pub query: Option<String>,
    pub all: bool,
}

#[derive(Debug)]
pub struct DaemonArgs {
    pub watch: bool,
    pub once: bool,
}

#[derive(Debug)]
pub struct ConfigArgs {
    pub section: ConfigCommand,
}

#[derive(Debug)]
pub enum ConfigCommand {
    Auto(ConfigAutoArgs),
    Api(ConfigApiArgs),
}

#[derive(Debug)]
pub struct ConfigAutoArgs {
    pub action: Option<ConfigToggle>,
    pub threshold_5h_percent: Option<u8>,
    pub weekly: Option<u8>,
}

#[derive(Debug)]
pub struct ConfigApiArgs {
    pub action: ConfigToggle,
}

#[derive(Debug, Clone, Copy, PartialEq, Eq, Structural)]
pub enum ConfigToggle {
    Enable,
    Disable,
}

}
