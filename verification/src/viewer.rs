//! Where the viewer of live messages listens: the presets it knows, the
//! connection that its arguments name, and the endpoint it connects to.

use crate::text::{decimal_text, push_decimal};
use crate::views::seq_view;
use vstd::prelude::*;
use vstd::string::StringExecFns;

verus! {

/// A server and the topics to listen to.
#[derive(Debug, Clone, PartialEq)]
pub struct ZmqConfig {
    pub host: String,
    pub port: u16,
    pub topics: Vec<String>,
}

impl ZmqConfig {
    /// The address to connect to: `tcp://`, the host, a colon and the port.
    pub open spec fn endpoint_text(&self) -> Seq<char> {
        "tcp://"@ + self.host@ + ":"@ + decimal_text(self.port as nat)
    }

    /// The address to connect to.
    pub fn endpoint(&self) -> (r: String)
        ensures
            r@ == self.endpoint_text(),
    {
        let mut out = String::from_str("tcp://");
        out.append(self.host.as_str());
        out.append(":");
        push_decimal(&mut out, self.port as u32);
        out
    }
}

/// The servers that the viewer knows by name.
#[allow(clippy::upper_case_acronyms)]
#[derive(Debug, Copy, Clone, PartialEq, Eq, Ord, PartialOrd, Structural)]
pub enum Preset {
    BISON,
    Kv78Turbo,
    NSInfoPlus,
    SIRI,
}

impl Preset {
    /// The host of all presets.
    pub open spec fn hostname() -> Seq<char> {
        "pubsub.besteffort.ndovloket.nl"@
    }

    /// The port of the preset.
    pub open spec fn port(self) -> u16 {
        match self {
            Preset::BISON => 7658,
            Preset::Kv78Turbo => 7817,
            Preset::NSInfoPlus => 7664,
            Preset::SIRI => 7666,
        }
    }

    /// The server of the preset, with the one topic `/RIG/`.
    pub fn zmq_config(&self) -> (r: ZmqConfig)
        ensures
            r.host@ == Preset::hostname(),
            r.port == self.port(),
            seq_view(r.topics@) == seq!["/RIG/"@],
    {
        let mut topics: Vec<String> = Vec::new();
        topics.push(String::from_str("/RIG/"));
        assert(seq_view(topics@) =~= seq!["/RIG/"@]);
        ZmqConfig {
            host: String::from_str("pubsub.besteffort.ndovloket.nl"),
            port: match self {
                Preset::BISON => 7658,
                Preset::Kv78Turbo => 7817,
                Preset::NSInfoPlus => 7664,
                Preset::SIRI => 7666,
            },
            topics,
        }
    }
}

/// What is wrong with the arguments that name a connection.
#[derive(Debug, Copy, Clone, PartialEq, Eq, Structural)]
pub enum ErrorKind {
    /// Two arguments cannot be used together, or one lacks the other.
    ArgumentConflict,
    /// No argument names a connection.
    MissingRequiredArgument,
}

/// The arguments that name a connection: a preset, or a host and a port.
#[derive(Debug, Clone, PartialEq)]
pub struct Connection {
    pub preset: Option<Preset>,
    pub hostname: Option<String>,
    pub port: Option<u16>,
}

impl Connection {
    /// What is wrong with the arguments, if anything: its kind and the
    /// message for the user. A preset alone is right, and so are a host
    /// and a port without a preset.
    pub open spec fn fault(&self) -> Option<(ErrorKind, Seq<char>)> {
        if self.preset.is_some() {
            if self.hostname.is_some() || self.port.is_some() {
                Some(
                    (
                        ErrorKind::ArgumentConflict,
                        "--preset cannot be used with --host or --port"@,
                    ),
                )
            } else {
                None
            }
        } else if self.hostname.is_some() {
            if self.port.is_some() {
                None
            } else {
                Some((ErrorKind::ArgumentConflict, "--host requires --port to be specified"@))
            }
        } else if self.port.is_some() {
            Some((ErrorKind::ArgumentConflict, "--port requires --host to be specified"@))
        } else {
            Some(
                (
                    ErrorKind::MissingRequiredArgument,
                    "Either --preset or both --host and --port must be specified"@,
                ),
            )
        }
    }

    /// Checks that the arguments name one connection: a preset alone, or a
    /// host and a port.
    pub fn validate(&self) -> (r: Result<(), (ErrorKind, String)>)
        ensures
            match self.fault() {
                None => r.is_ok(),
                Some((kind, message)) => r matches Err(e) && e.0 == kind && e.1@ == message,
            },
    {
        match (&self.preset, &self.hostname, &self.port) {
            (Some(_), None, None) => Ok(()),
            (None, Some(_), Some(_)) => Ok(()),
            (Some(_), _, _) => Err(
                (
                    ErrorKind::ArgumentConflict,
                    String::from_str("--preset cannot be used with --host or --port"),
                ),
            ),
            (None, Some(_), None) => Err(
                (
                    ErrorKind::ArgumentConflict,
                    String::from_str("--host requires --port to be specified"),
                ),
            ),
            (None, None, Some(_)) => Err(
                (
                    ErrorKind::ArgumentConflict,
                    String::from_str("--port requires --host to be specified"),
                ),
            ),
            (None, None, None) => Err(
                (
                    ErrorKind::MissingRequiredArgument,
                    String::from_str("Either --preset or both --host and --port must be specified"),
                ),
            ),
        }
    }
}

/// The colours in which a message is shown.
#[derive(Debug, Copy, Clone, PartialEq, Eq, Structural)]
pub enum Theme {
    Light,
    Dark,
}

impl Theme {
    /// The name of the set of colours.
    pub open spec fn name(self) -> Seq<char> {
        match self {
            Theme::Light => "InspiredGitHub"@,
            Theme::Dark => "base16-ocean.dark"@,
        }
    }

    /// The name of the set of colours.
    pub fn to_string(&self) -> (r: String)
        ensures
            r@ == self.name(),
    {
        match self {
            Theme::Light => String::from_str("InspiredGitHub"),
            Theme::Dark => String::from_str("base16-ocean.dark"),
        }
    }
}

} // verus!
