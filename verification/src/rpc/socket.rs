//! Where the control socket lives, and whether an existing socket file may be
//! replaced. Reading the environment and touching the file system are done by
//! the caller.
use vstd::prelude::*;
use crate::paths::{join_relative, join_relative_spec};

verus! {

/// The environment variable naming the socket's base directory: `HOME` on
/// macOS, `XDG_RUNTIME_DIR` elsewhere.
pub fn socket_base_var(macos: bool) -> (r: &'static str)
    ensures
        r@ == if macos { "HOME"@ } else { "XDG_RUNTIME_DIR"@ },
{
    if macos {
        "HOME"
    } else {
        "XDG_RUNTIME_DIR"
    }
}

/// The socket's path below its base directory; the dev instance has its own.
pub open spec fn socket_rel(dev: bool, macos: bool) -> Seq<char> {
    if macos {
        if dev {
            "Library/Caches/beans-daemon/sock-dev"@
        } else {
            "Library/Caches/beans-daemon/sock"@
        }
    } else {
        if dev {
            "beans-daemon-dev.sock"@
        } else {
            "beans-daemon.sock"@
        }
    }
}

/// The base variable was not set.
#[derive(Debug, PartialEq, Eq)]
pub struct UnsetVar {
    pub var: &'static str,
}

impl UnsetVar {
    pub fn message(&self) -> (m: String)
        ensures
            m@ == self.var@ + " unset"@,
    {
        let mut m = String::from_str(self.var);
        m.append(" unset");
        m
    }
}

/// The socket path given the value of the base variable (`None`: unset).
pub fn default_socket_path(base: Option<String>, dev: bool, macos: bool) -> (r: Result<String, UnsetVar>)
    ensures
        match base {
            None => r matches Err(e) && e.var@ == (if macos { "HOME"@ } else { "XDG_RUNTIME_DIR"@ }),
            Some(b) => r matches Ok(p) && p@ == join_relative_spec(b@, socket_rel(dev, macos)),
        },
{
    match base {
        None => Err(UnsetVar { var: socket_base_var(macos) }),
        Some(b) => {
            let rel: &'static str = if macos {
                if dev {
                    "Library/Caches/beans-daemon/sock-dev"
                } else {
                    "Library/Caches/beans-daemon/sock"
                }
            } else {
                if dev {
                    "beans-daemon-dev.sock"
                } else {
                    "beans-daemon.sock"
                }
            };
            Ok(join_relative(&b, rel))
        },
    }
}

/// What to do with the socket path before binding it.
#[derive(Debug, Clone, Copy, PartialEq, Eq)]
pub enum BindStep {
    Bind,
    UnlinkThenBind,
    /// A live daemon answers on it.
    Refuse,
}

/// A stale socket file is removed; one a daemon still answers on is kept.
pub fn bind_step(exists: bool, live: bool) -> (r: BindStep)
    ensures
        r == (if !exists {
            BindStep::Bind
        } else if live {
            BindStep::Refuse
        } else {
            BindStep::UnlinkThenBind
        }),
{
    if !exists {
        BindStep::Bind
    } else if live {
        BindStep::Refuse
    } else {
        BindStep::UnlinkThenBind
    }
}

/// The error reported when a live daemon holds the socket.
pub fn in_use_message(path: &String) -> (m: String)
    ensures
        m@ == "socket "@ + path@ + " already in use by a live daemon"@,
{
    let mut m = String::from_str("socket ");
    m.append(path.as_str());
    m.append(" already in use by a live daemon");
    m
}

/// The dev instance never shares the production socket.
pub proof fn law_dev_socket_differs_from_prod(base: Seq<char>, macos: bool)
    ensures
        join_relative_spec(base, socket_rel(true, macos)) != join_relative_spec(base, socket_rel(false, macos)),
{
    reveal_strlit("Library/Caches/beans-daemon/sock-dev");
    reveal_strlit("Library/Caches/beans-daemon/sock");
    reveal_strlit("beans-daemon-dev.sock");
    reveal_strlit("beans-daemon.sock");
    let d = socket_rel(true, macos);
    let p = socket_rel(false, macos);
    assert(d.len() != p.len());
    assert(join_relative_spec(base, d).len() != join_relative_spec(base, p).len());
}

} // verus!
