//! Where the backend program comes from, and how it is started and reached.

use vstd::prelude::*;
use crate::text::{decimal, push_decimal, string_views};

verus! {

/// The file name of the bundled node runtime.
pub fn node_exe(windows: bool) -> (r: &'static str)
    ensures
        r@ == (if windows { "node.exe"@ } else { "node"@ }),
{
    if windows {
        "node.exe"
    } else {
        "node"
    }
}

/// The path, below the resource directory, of the bundled node runtime, one segment each.
pub fn bundled_node_path(windows: bool) -> (r: Vec<&'static str>)
    ensures
        r@.len() == 2,
        r@[0]@ == "backend"@,
        r@[1]@ == (if windows { "node.exe"@ } else { "node"@ }),
{
    let mut r: Vec<&'static str> = Vec::new();
    r.push("backend");
    r.push(node_exe(windows));
    r
}

/// The path, below the resource directory, of the bundled command line entry point, one segment each.
pub fn bundled_cli_path() -> (r: Vec<&'static str>)
    ensures
        r@.len() == 6,
        r@[0]@ == "backend"@,
        r@[1]@ == "node_modules"@,
        r@[2]@ == "@deepseek-ai"@,
        r@[3]@ == "dsh"@,
        r@[4]@ == "lib"@,
        r@[5]@ == "bin.js"@,
{
    let mut r: Vec<&'static str> = Vec::new();
    r.push("backend");
    r.push("node_modules");
    r.push("@deepseek-ai");
    r.push("dsh");
    r.push("lib");
    r.push("bin.js");
    r
}

/// How the backend is started.
pub enum LaunchPlan {
    /// Run the program that the override names.
    Explicit { program: String },
    /// Run the bundled node runtime with the bundled entry point as its first argument.
    Bundled,
    /// Run this program from the search path.
    OnPath { program: String },
}

/// Picks the backend program: an explicit override first, then the bundled copy
/// when both its files are present, then `dsh` from the search path.
pub fn plan_launch(override_bin: Option<String>, bundle_present: bool) -> (r: LaunchPlan)
    ensures
        match override_bin {
            Some(bin) => r matches LaunchPlan::Explicit { program } && program@ == bin@,
            None => if bundle_present {
                r is Bundled
            } else {
                r matches LaunchPlan::OnPath { program } && program@ == "dsh"@
            },
        },
{
    match override_bin {
        Some(bin) => LaunchPlan::Explicit { program: bin },
        None => if bundle_present {
            LaunchPlan::Bundled
        } else {
            LaunchPlan::OnPath { program: "dsh".to_owned() }
        },
    }
}

/// The arguments that start the backend's web server on a loopback port.
pub open spec fn web_args(port: u16) -> Seq<Seq<char>> {
    seq!["web"@, "--host"@, "127.0.0.1"@, "--port"@, decimal(port as nat)]
}

/// The arguments the backend is started with.
pub fn backend_args(port: u16) -> (r: Vec<String>)
    ensures
        string_views(r@) == web_args(port),
        r@.len() == 5,
        r@[0]@ == "web"@,
        r@[1]@ == "--host"@,
        r@[2]@ == "127.0.0.1"@,
        r@[3]@ == "--port"@,
        r@[4]@ == decimal(port as nat),
        crate::text::digits_value(r@[4]@) == port,
{
    let mut p = String::new();
    push_decimal(&mut p, port);
    let mut r: Vec<String> = Vec::new();
    r.push("web".to_owned());
    r.push("--host".to_owned());
    r.push("127.0.0.1".to_owned());
    r.push("--port".to_owned());
    r.push(p);
    assert(string_views(r@) =~= web_args(port));
    proof {
        crate::text::lemma_decimal_denotes(port as nat);
    }
    r
}

/// The address of the backend's web server on a loopback port.
pub open spec fn loopback_url_spec(port: u16) -> Seq<char> {
    "http://127.0.0.1:"@ + decimal(port as nat)
}

/// The address where the backend serves once it listens on `port`.
pub fn loopback_url(port: u16) -> (r: String)
    ensures
        r@ == loopback_url_spec(port),
        r@ == "http://127.0.0.1:"@ + decimal(port as nat),
{
    let mut r = "http://127.0.0.1:".to_owned();
    push_decimal(&mut r, port);
    r
}

/// The tray's tooltip while the backend serves at `url`.
pub open spec fn tooltip_spec(url: Seq<char>) -> Seq<char> {
    "DSH Studio — "@ + url
}

/// The tray's tooltip while the backend serves at `url`.
pub fn tooltip_for(url: &str) -> (r: String)
    ensures
        r@ == tooltip_spec(url@),
        r@ == "DSH Studio — "@ + url@,
{
    let mut r = "DSH Studio — ".to_owned();
    r.append(url);
    r
}

} // verus!
