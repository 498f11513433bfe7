//! The configuration of a deployment.

use vstd::prelude::*;
use vstd::string::StringExecFns;

verus! {

/// Where the server listens and whom it lets in.
#[derive(Debug, Clone)]
pub struct ServerConfig {
    pub host: String,
    pub port: u16,
    pub cors_origin: String,
}

/// Where the database lives.
#[derive(Debug, Clone)]
pub struct DatabaseConfig {
    pub url: String,
    pub create_if_missing: bool,
}

/// How much the server logs.
#[derive(Debug, Clone)]
pub struct LoggingConfig {
    pub level: String,
}

/// The whole configuration.
#[derive(Debug, Clone)]
pub struct Config {
    pub server: ServerConfig,
    pub database: DatabaseConfig,
    pub logging: LoggingConfig,
}

/// The character of a decimal digit.
pub open spec fn digit(d: nat) -> char
    recommends
        d < 10,
{
    seq!['0', '1', '2', '3', '4', '5', '6', '7', '8', '9'][d as int]
}

/// The decimal numeral of `n`, without leading zeros.
pub open spec fn decimal(n: nat) -> Seq<char>
    decreases n,
{
    if n < 10 {
        seq![digit(n)]
    } else {
        decimal(n / 10).push(digit(n % 10))
    }
}

/// The address a server with this host and port listens on.
pub open spec fn address_text(host: Seq<char>, port: nat) -> Seq<char> {
    host + seq![':'] + decimal(port)
}

/// The URL under which a server on this port is reached locally.
pub open spec fn url_text(port: nat) -> Seq<char> {
    "http://localhost:"@ + decimal(port)
}

fn digit_text(d: u16) -> (text: &'static str)
    requires
        d < 10,
    ensures
        text@ == seq![digit(d as nat)],
{
    proof {
        reveal_strlit("0");
        reveal_strlit("1");
        reveal_strlit("2");
        reveal_strlit("3");
        reveal_strlit("4");
        reveal_strlit("5");
        reveal_strlit("6");
        reveal_strlit("7");
        reveal_strlit("8");
        reveal_strlit("9");
    }
    let text = match d {
        0 => "0",
        1 => "1",
        2 => "2",
        3 => "3",
        4 => "4",
        5 => "5",
        6 => "6",
        7 => "7",
        8 => "8",
        _ => "9",
    };
    assert(text@ =~= seq![digit(d as nat)]);
    text
}

/// Writes a port number in decimal.
pub fn decimal_text(n: u16) -> (text: String)
    ensures
        text@ == decimal(n as nat),
    decreases n,
{
    if n < 10 {
        digit_text(n).to_string()
    } else {
        let mut text = decimal_text(n / 10);
        text.append(digit_text(n % 10));
        text
    }
}

impl Config {
    /// The address the server listens on: the host, a colon, the port.
    pub fn server_address(&self) -> (address: String)
        ensures
            address@ == address_text(self.server.host@, self.server.port as nat),
    {
        proof {
            reveal_strlit(":");
        }
        let mut address = self.server.host.clone();
        address.append(":");
        address.append(decimal_text(self.server.port).as_str());
        assert(":"@ =~= seq![':']);
        address
    }

    /// The URL under which the server is reached on its own machine.
    pub fn server_url(&self) -> (url: String)
        ensures
            url@ == url_text(self.server.port as nat),
    {
        let mut url = "http://localhost:".to_string();
        url.append(decimal_text(self.server.port).as_str());
        url
    }
}

} // verus!
