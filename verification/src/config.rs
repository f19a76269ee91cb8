//! PaperPad configuration: an optional explicit PaperSpoon host and its port,
//! read once before transport startup.
use crate::datagram::DEFAULT_TCP_PORT;
use crate::text::{chars_to_string, debug_quoted, debug_text, parse_u16, parse_u16_spec, push_str, str_to_chars, trim, trimmed};
use vstd::prelude::*;

verus! {

/// Environment variable naming an explicit PaperSpoon host.
pub const COMPANION_HOST_ENV: &'static str = "RUST_X11_HELLO_COMPANION";

/// Environment variable naming the explicit host's TCP port.
pub const COMPANION_PORT_ENV: &'static str = "RUST_X11_HELLO_COMPANION_PORT";

/// Port used with an explicit host when none is given.
pub const DEFAULT_COMPANION_PORT: u16 = DEFAULT_TCP_PORT;

#[derive(Clone, Debug, PartialEq, Eq)]
pub struct PaperpadConfig {
    host: Option<String>,
    port: u16,
}

#[derive(Clone, Debug, PartialEq, Eq)]
pub enum ConfigError {
    /// A port was given without an explicit host.
    PortWithoutHost,
    /// The port is not a decimal in 1..=65535.
    InvalidPort(String),
}

/// The configuration the two optional values give: the trimmed host, unless
/// blank; the port, which needs a host and must be a nonzero `u16`, or the
/// default; or the error that rejects them.
pub open spec fn config_spec(host: Option<Seq<char>>, port: Option<Seq<char>>) -> Result<
    (Option<Seq<char>>, u16),
    ConfigErrorView,
> {
    let host = match host {
        Some(text) => if trim(text).len() > 0 {
            Some(trim(text))
        } else {
            None
        },
        None => None,
    };
    match port {
        Some(text) => if host is None {
            Err(ConfigErrorView::PortWithoutHost)
        } else {
            match parse_u16_spec(text) {
                Some(value) => if value != 0 {
                    Ok((host, value))
                } else {
                    Err(ConfigErrorView::InvalidPort(text))
                },
                None => Err(ConfigErrorView::InvalidPort(text)),
            }
        },
        None => Ok((host, DEFAULT_COMPANION_PORT)),
    }
}

/// The content of a configuration error.
pub enum ConfigErrorView {
    PortWithoutHost,
    InvalidPort(Seq<char>),
}

impl View for ConfigError {
    type V = ConfigErrorView;

    open spec fn view(&self) -> ConfigErrorView {
        match self {
            ConfigError::PortWithoutHost => ConfigErrorView::PortWithoutHost,
            ConfigError::InvalidPort(text) => ConfigErrorView::InvalidPort(text@),
        }
    }
}

/// The text of an optional string.
pub open spec fn optional_text(text: Option<&str>) -> Option<Seq<char>> {
    match text {
        Some(text) => Some(text@),
        None => None,
    }
}

impl PaperpadConfig {
    pub closed spec fn spec_host(&self) -> Option<Seq<char>> {
        match &self.host {
            Some(host) => Some(host@),
            None => None,
        }
    }

    pub closed spec fn spec_port(&self) -> u16 {
        self.port
    }

    /// Build the configuration from the optional host and port values.
    pub fn from_values(host: Option<&str>, port: Option<&str>) -> (result: Result<
        Self,
        ConfigError,
    >)
        ensures
            match result {
                Ok(config) => config_spec(optional_text(host), optional_text(port)) == Ok::<
                    (Option<Seq<char>>, u16),
                    ConfigErrorView,
                >((config.spec_host(), config.spec_port())),
                Err(error) => config_spec(optional_text(host), optional_text(port)) == Err::<
                    (Option<Seq<char>>, u16),
                    ConfigErrorView,
                >(error@),
            },
    {
        let host: Option<Vec<char>> = match host {
            Some(text) => {
                let chars = str_to_chars(text);
                let trimmed_host = trimmed(chars.as_slice());
                if trimmed_host.len() > 0 {
                    Some(trimmed_host)
                } else {
                    None
                }
            },
            None => None,
        };
        let port = match port {
            Some(text) => {
                if host.is_none() {
                    return Err(ConfigError::PortWithoutHost);
                }
                let chars = str_to_chars(text);
                match parse_u16(chars.as_slice()) {
                    Some(value) => {
                        if value == 0 {
                            return Err(ConfigError::InvalidPort(chars_to_string(chars.as_slice())));
                        }
                        value
                    },
                    None => return Err(ConfigError::InvalidPort(chars_to_string(chars.as_slice()))),
                }
            },
            None => DEFAULT_COMPANION_PORT,
        };
        let host = match host {
            Some(chars) => Some(chars_to_string(chars.as_slice())),
            None => None,
        };
        Ok(PaperpadConfig { host, port })
    }

    pub fn host(&self) -> (host: Option<&str>)
        ensures
            optional_text(host) == self.spec_host(),
    {
        match &self.host {
            Some(host) => Some(host.as_str()),
            None => None,
        }
    }

    pub fn port(&self) -> (port: u16)
        ensures
            port == self.spec_port(),
    {
        self.port
    }
}

impl ConfigError {
    /// A description of the error that names the variables involved.
    pub fn message(&self) -> (text: String)
        ensures
            text@ == match self@ {
                ConfigErrorView::PortWithoutHost => COMPANION_PORT_ENV@ + " requires an explicit "@
                    + COMPANION_HOST_ENV@,
                ConfigErrorView::InvalidPort(value) => COMPANION_PORT_ENV@
                    + " must be a decimal TCP port in 1..=65535, got "@ + debug_text(value),
            },
    {
        let mut out: Vec<char> = Vec::new();
        match self {
            ConfigError::PortWithoutHost => {
                push_str(&mut out, COMPANION_PORT_ENV);
                push_str(&mut out, " requires an explicit ");
                push_str(&mut out, COMPANION_HOST_ENV);
                assert(out@ =~= COMPANION_PORT_ENV@ + " requires an explicit "@ + COMPANION_HOST_ENV@);
            },
            ConfigError::InvalidPort(value) => {
                push_str(&mut out, COMPANION_PORT_ENV);
                push_str(&mut out, " must be a decimal TCP port in 1..=65535, got ");
                let quoted = debug_quoted(value.as_str());
                push_str(&mut out, quoted.as_str());
                assert(out@ =~= COMPANION_PORT_ENV@
                    + " must be a decimal TCP port in 1..=65535, got "@ + debug_text(value@));
            },
        }
        chars_to_string(out.as_slice())
    }
}

} // verus!
