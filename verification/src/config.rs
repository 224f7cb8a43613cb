//! Well-known paths: where sandboxes are kept on disk and where the monitor
//! socket of each one lies.

use crate::text::{from_chars, is_prefix, starts_with, to_chars};
use vstd::prelude::*;
use vstd::string::*;

verus! {

/// HTTP path under which a sandbox serves its metrics.
pub const METRICS_URL: &'static str = "/metrics";

/// Name of the monitor socket inside a sandbox's directory.
pub const MONITOR_SOCKET: &'static str = "shim-monitor.sock";

/// `base` with `component` adjoined, as paths are joined on Unix: an
/// absolute component replaces the base, and a separator comes between the
/// two unless the base is empty or ends in one.
pub open spec fn join_path(base: Seq<char>, component: Seq<char>) -> Seq<char> {
    if component.len() > 0 && component[0] == '/' {
        component
    } else if base.len() == 0 || base.last() == '/' {
        base + component
    } else {
        base + seq!['/'] + component
    }
}

/// The path of the monitor socket of sandbox `id` under `storage_path`.
pub open spec fn socket_path_of(id: Seq<char>, storage_path: Seq<char>) -> Seq<char> {
    join_path(join_path(storage_path, id), MONITOR_SOCKET@)
}

/// `address` less a leading `unix://`, if it has one.
pub open spec fn without_unix_scheme(address: Seq<char>) -> Seq<char> {
    if is_prefix("unix://"@, address) {
        address.skip("unix://"@.len() as int)
    } else {
        address
    }
}

/// The path of the socket behind `address`, which may be given in either of
/// the forms `unix:///path` and `/path`.
pub fn strip_unix_scheme(address: &str) -> (path: String)
    ensures
        path@ == without_unix_scheme(address@),
{
    let chars = to_chars(address);
    let scheme = to_chars("unix://");
    if starts_with(&chars, &scheme) {
        proof {
            assert(chars@.subrange(scheme@.len() as int, chars@.len() as int) =~= address@.skip(
                "unix://"@.len() as int,
            ));
        }
        from_chars(&chars, scheme.len(), chars.len())
    } else {
        address.to_owned()
    }
}

/// The address of a Unix socket at `path`.
pub open spec fn unix_address(path: Seq<char>) -> Seq<char> {
    "unix://"@ + path
}

/// Neither runtime has a monitor socket for the sandbox.
#[derive(Debug)]
pub struct SocketNotFound {
    /// Id of the sandbox.
    pub id: String,
    /// The path that was checked for the Go runtime.
    pub go_socket: String,
    /// The path that was checked for the Rust runtime.
    pub rust_socket: String,
}

impl SocketNotFound {
    /// The text of the error: the sandbox and the two paths that were
    /// checked.
    pub open spec fn text(self) -> Seq<char> {
        "socket not found for sandbox "@ + self.id@ + ": checked "@ + self.go_socket@ + " and "@
            + self.rust_socket@
    }

    /// The text of the error.
    pub fn message(&self) -> (text: String)
        ensures
            text@ == self.text(),
    {
        let mut text = "socket not found for sandbox ".to_owned();
        text.append(self.id.as_str());
        text.append(": checked ");
        text.append(self.go_socket.as_str());
        text.append(" and ");
        text.append(self.rust_socket.as_str());
        text
    }
}

/// Get the storage path where sandboxes info are stored (Go runtime).
pub fn get_sandboxes_storage_path() -> (path: String)
    ensures
        path@ == "/run/vc/sbs"@,
{
    "/run/vc/sbs".to_owned()
}

/// Get the storage path where sandboxes info are stored (Rust runtime).
pub fn get_sandboxes_storage_path_rust() -> (path: String)
    ensures
        path@ == "/run/kata"@,
{
    "/run/kata".to_owned()
}

fn join(base: &str, component: &str) -> (path: String)
    ensures
        path@ == join_path(base@, component@),
{
    if !component.is_empty() && component.get_char(0) == '/' {
        return component.to_owned();
    }
    let mut path = base.to_owned();
    let chars = to_chars(base);
    if chars.len() > 0 && chars[chars.len() - 1] != '/' {
        path.push('/');
    }
    path.append(component);
    proof {
        assert(path@ =~= join_path(base@, component@));
    }
    path
}

/// Get socket path for the given storage path.
pub fn socket_path(id: &str, storage_path: &str) -> (path: String)
    ensures
        path@ == socket_path_of(id@, storage_path@),
{
    let sandbox_dir = join(storage_path, id);
    join(sandbox_dir.as_str(), MONITOR_SOCKET)
}

/// Get socket path for the Go runtime.
pub fn socket_path_go(id: &str) -> (path: String)
    ensures
        path@ == socket_path_of(id@, "/run/vc/sbs"@),
{
    let storage = get_sandboxes_storage_path();
    socket_path(id, storage.as_str())
}

/// Get socket path for the Rust runtime.
pub fn socket_path_rust(id: &str) -> (path: String)
    ensures
        path@ == socket_path_of(id@, "/run/kata"@),
{
    let storage = get_sandboxes_storage_path_rust();
    socket_path(id, storage.as_str())
}

/// Get the client socket address of sandbox `id`.
///
/// `go_socket_exists` and `rust_socket_exists` say whether the monitor socket
/// exists at the path of the Go and of the Rust runtime. The Go runtime's
/// socket is preferred. Where neither exists the error names both paths.
pub fn client_socket_address(id: &str, go_socket_exists: bool, rust_socket_exists: bool) -> (address:
    Result<String, SocketNotFound>)
    ensures
        match address {
            Ok(a) => if go_socket_exists {
                a@ == unix_address(socket_path_of(id@, "/run/vc/sbs"@))
            } else {
                rust_socket_exists && a@ == unix_address(socket_path_of(id@, "/run/kata"@))
            },
            Err(e) => {
                &&& !go_socket_exists
                &&& !rust_socket_exists
                &&& e.id@ == id@
                &&& e.go_socket@ == socket_path_of(id@, "/run/vc/sbs"@)
                &&& e.rust_socket@ == socket_path_of(id@, "/run/kata"@)
            },
        },
{
    let go_socket = socket_path_go(id);
    if go_socket_exists {
        let mut address = "unix://".to_owned();
        address.append(go_socket.as_str());
        return Ok(address);
    }
    let rust_socket = socket_path_rust(id);
    if rust_socket_exists {
        let mut address = "unix://".to_owned();
        address.append(rust_socket.as_str());
        return Ok(address);
    }
    Err(SocketNotFound { id: id.to_owned(), go_socket, rust_socket })
}

} // verus!
