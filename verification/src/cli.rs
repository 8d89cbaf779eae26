//! The command line's derived values: the port the daemon listens on and
//! the systemd unit that `--setup` writes.

use vstd::prelude::*;

use crate::text::{dec, push_str, push_u64};

verus! {

/// Where the daemon's binary is installed unless configured otherwise.
pub const DEFAULT_BIN: &'static str = "/usr/local/bin/rustpanel-backend";
/// The address the daemon listens on unless configured otherwise.
pub const DEFAULT_ADDR: &'static str = "127.0.0.1:8080";

/// The port to listen on: `--port` when given, else the port of `--addr`.
pub fn listen_port(addr_port: u16, port: Option<u16>) -> (r: u16)
    ensures
        r == match port {
            Some(p) => p,
            None => addr_port,
        },
{
    match port {
        Some(p) => p,
        None => addr_port,
    }
}

/// The systemd unit that runs `bin` on `port`.
pub open spec fn systemd_unit(bin: Seq<char>, port: u16) -> Seq<char> {
    "[Unit]\nDescription=RustPanel backend service\nAfter=network-online.target\nWants=network-online.target\n\n[Service]\nType=simple\nExecStart="@
        + bin + " --port "@ + dec(port as nat)
        + "\nEnvironment=RUSTPANEL_ENV=production\nEnvironment=RUSTPANEL_JWT_SECRET=replace-with-at-least-32-random-bytes\nRestart=always\nRestartSec=3\nNoNewPrivileges=true\n\n[Install]\nWantedBy=multi-user.target\n"@
}

/// The unit file that `--setup` installs: the binary at `bin` started with
/// the listen port, in production mode, restarted when it stops.
pub fn systemd_service(bin: &str, port: u16) -> (r: String)
    ensures
        r@ == systemd_unit(bin@, port),
{
    let mut s = String::new();
    push_str(
        &mut s,
        "[Unit]\nDescription=RustPanel backend service\nAfter=network-online.target\nWants=network-online.target\n\n[Service]\nType=simple\nExecStart=",
    );
    push_str(&mut s, bin);
    push_str(&mut s, " --port ");
    push_u64(&mut s, port as u64);
    push_str(
        &mut s,
        "\nEnvironment=RUSTPANEL_ENV=production\nEnvironment=RUSTPANEL_JWT_SECRET=replace-with-at-least-32-random-bytes\nRestart=always\nRestartSec=3\nNoNewPrivileges=true\n\n[Install]\nWantedBy=multi-user.target\n",
    );
    s
}

} // verus!
