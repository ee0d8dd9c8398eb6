//! Where clients reach the daemon.

use vstd::prelude::*;

use crate::paths;
use crate::text;

verus! {

/// The path of the daemon's socket.
pub fn ipc_path(dir: &str) -> (r: String)
    ensures
        r@ == paths::joined(dir@, "b3.sock"@),
{
    paths::join(dir, "b3.sock")
}

/// The path of the file that holds the daemon's port, where there are no sockets.
pub fn ipc_port_path(dir: &str) -> (r: String)
    ensures
        r@ == paths::joined(dir@, "b3-ipc.port"@),
{
    paths::join(dir, "b3-ipc.port")
}

/// The address of the daemon, by the contents of that file.
pub fn ipc_address(contents: &str) -> (r: Option<String>)
    ensures
        match text::parse_unsigned(text::trim_spec(contents@), 65535) {
            Some(p) => r matches Some(a) && a@ == "127.0.0.1:"@ + text::decimal(p),
            None => r is None,
        },
{
    let t = text::trim(contents);
    match text::parse_number(t.as_str(), 65535) {
        Some(p) => {
            let n = text::to_decimal(p);
            Some(text::cat2("127.0.0.1:", n.as_str()))
        },
        None => None,
    }
}

} // verus!
