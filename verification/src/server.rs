//! The addresses of the server: where it listens, and where it is reached.

use vstd::prelude::*;
use vstd::string::StringExecFns;
use crate::text::str_eq;

verus! {

/// The host and the port that the command line names: the first and the
/// second argument behind the program's name, or `0.0.0.0` and `4836`
/// where they are missing.
pub open spec fn target_of(args: Seq<Seq<char>>) -> (Seq<char>, Seq<char>) {
    (
        if args.len() > 1 {
            args[1]
        } else {
            "0.0.0.0"@
        },
        if args.len() > 2 {
            args[2]
        } else {
            "4836"@
        },
    )
}

/// The host and the port that the command line names.
pub fn cli_target(args: &Vec<String>) -> (r: (String, String))
    ensures
        (r.0@, r.1@) == target_of(Seq::new(args@.len(), |i: int| args@[i]@)),
{
    let host = if args.len() > 1 {
        args[1].clone()
    } else {
        "0.0.0.0".to_string()
    };
    let port = if args.len() > 2 {
        args[2].clone()
    } else {
        "4836".to_string()
    };
    (host, port)
}

/// The address to listen on: host, colon, port.
pub fn bind_address(host: &str, port: &str) -> (r: String)
    ensures
        r@ == host@ + ":"@ + port@,
{
    let mut r = host.to_string();
    r.append(":");
    r.append(port);
    r
}

/// The host under which other devices reach a server that listens on
/// `host`: the machine's address in the local network where it listens on
/// every address, and `127.0.0.1` where that address is not known.
pub open spec fn display_host_of(host: Seq<char>, local_ip: Option<Seq<char>>) -> Seq<char> {
    if host == "0.0.0.0"@ {
        match local_ip {
            Some(ip) => ip,
            None => "127.0.0.1"@,
        }
    } else {
        host
    }
}

/// The URL under which other devices reach the server.
pub fn server_url(host: &str, port: &str, local_ip: Option<&str>) -> (r: String)
    ensures
        r@ == "http://"@ + display_host_of(
            host@,
            match local_ip {
                Some(ip) => Some(ip@),
                None => None,
            },
        ) + ":"@ + port@,
{
    let mut r = "http://".to_string();
    if str_eq(host, "0.0.0.0") {
        match local_ip {
            Some(ip) => r.append(ip),
            None => r.append("127.0.0.1"),
        }
    } else {
        r.append(host);
    }
    r.append(":");
    r.append(port);
    r
}

/// The URL that the browser on this machine is sent to: `localhost` stands
/// for a server that listens on every address.
pub fn browser_url(host: &str, port: &str) -> (r: String)
    ensures
        r@ == "http://"@ + (if host@ == "0.0.0.0"@ || host@ == "::"@ {
            "localhost"@
        } else {
            host@
        }) + ":"@ + port@,
{
    let mut r = "http://".to_string();
    if str_eq(host, "0.0.0.0") || str_eq(host, "::") {
        r.append("localhost");
    } else {
        r.append(host);
    }
    r.append(":");
    r.append(port);
    r
}

} // verus!
