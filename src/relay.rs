//! Settings of the serial-to-TCP relay: command-line values take precedence
//! over the configuration file, which takes precedence over the defaults.
use vstd::prelude::*;

verus! {

/// Baud rate when none is given.
pub const DEFAULT_BAUD: u32 = 115200;
/// TCP port when none is given.
pub const DEFAULT_NET_PORT: u16 = 5432;

/// Relay settings read from a configuration file; each may be absent.
#[derive(Clone, Debug)]
pub struct SerialConfig {
    pub uart: Option<String>,
    pub baud: Option<u32>,
    pub net_port: Option<u16>,
    pub net_bind: Option<String>,
}

/// The settings the relay runs with.
#[derive(Clone, Debug)]
pub struct RelaySettings {
    pub uart: String,
    pub baud: u32,
    pub port: u16,
    pub bind: String,
}

/// Why the relay cannot start.
#[derive(Clone, Copy, Debug, PartialEq, Eq, Structural)]
pub enum RelayError {
    /// Neither the arguments nor the configuration name a serial port.
    NoSerialPort,
}

pub open spec fn first_of<T>(a: Option<T>, b: Option<T>) -> Option<T> {
    match a {
        Some(x) => Some(x),
        None => b,
    }
}

pub open spec fn string_views(o: Option<String>) -> Option<Seq<char>> {
    match o {
        Some(s) => Some(s@),
        None => None,
    }
}

pub open spec fn config_uart(c: Option<SerialConfig>) -> Option<Seq<char>> {
    match c {
        Some(c) => string_views(c.uart),
        None => None,
    }
}

pub open spec fn config_bind(c: Option<SerialConfig>) -> Option<Seq<char>> {
    match c {
        Some(c) => string_views(c.net_bind),
        None => None,
    }
}

pub open spec fn config_baud(c: Option<SerialConfig>) -> Option<u32> {
    match c {
        Some(c) => c.baud,
        None => None,
    }
}

pub open spec fn config_port(c: Option<SerialConfig>) -> Option<u16> {
    match c {
        Some(c) => c.net_port,
        None => None,
    }
}

fn pick_string(a: Option<String>, b: &Option<String>) -> (r: Option<String>)
    ensures
        string_views(r) == first_of(string_views(a), string_views(*b)),
{
    match a {
        Some(x) => Some(x),
        None => match b {
            Some(y) => Some(y.clone()),
            None => None,
        },
    }
}

/// Resolves each setting from the arguments, then `config`, then the
/// defaults (115200 baud, port 5432, bind address `0.0.0.0`). The serial
/// port has no default.
pub fn resolve(
    uart: Option<String>,
    baud: Option<u32>,
    port: Option<u16>,
    bind: Option<String>,
    config: Option<SerialConfig>,
) -> (r: Result<RelaySettings, RelayError>)
    ensures
        ({
            let u = first_of(string_views(uart), config_uart(config));
            match r {
                Ok(s) => {
                    &&& u == Some(s.uart@)
                    &&& s.baud == (match first_of(baud, config_baud(config)) {
                        Some(b) => b,
                        None => 115200,
                    })
                    &&& s.port == (match first_of(port, config_port(config)) {
                        Some(p) => p,
                        None => 5432,
                    })
                    &&& s.bind@ == (match first_of(string_views(bind), config_bind(config)) {
                        Some(b) => b,
                        None => "0.0.0.0"@,
                    })
                },
                Err(e) => u is None && e == RelayError::NoSerialPort,
            }
        }),
{
    let (c_uart, c_baud, c_port, c_bind) = match &config {
        Some(c) => (pick_string(None, &c.uart), c.baud, c.net_port, pick_string(None, &c.net_bind)),
        None => (None, None, None, None),
    };
    let final_uart = pick_string(uart, &c_uart);
    let final_baud = match baud {
        Some(b) => b,
        None => match c_baud {
            Some(b) => b,
            None => DEFAULT_BAUD,
        },
    };
    let final_port = match port {
        Some(p) => p,
        None => match c_port {
            Some(p) => p,
            None => DEFAULT_NET_PORT,
        },
    };
    let final_bind = match pick_string(bind, &c_bind) {
        Some(b) => b,
        None => "0.0.0.0".to_owned(),
    };
    match final_uart {
        Some(u) => Ok(RelaySettings { uart: u, baud: final_baud, port: final_port, bind: final_bind }),
        None => Err(RelayError::NoSerialPort),
    }
}

} // verus!
