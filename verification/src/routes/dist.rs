//! Serving the pre-built client for the known platforms.

use vstd::prelude::*;
use crate::paths;
use crate::paths::join;
use crate::text;
use crate::text::{concat3, quoted, same_text};

verus! {

pub const DEFAULT_DIST_ROOT: &'static str = "/opt/cosmon-remote/dist";

/// A client is built for the platform.
pub open spec fn known_platform(p: Seq<char>) -> bool {
    p == "macos-arm64"@ || p == "macos-amd64"@ || p == "linux-arm64"@ || p == "linux-amd64"@
}

/// The platforms that a client is built for.
pub open spec fn platforms() -> Seq<&'static str> {
    seq!["macos-arm64", "macos-amd64", "linux-arm64", "linux-amd64"]
}

/// The platforms that a client is built for.
pub fn known_platforms() -> (r: Vec<&'static str>)
    ensures
        r@ == platforms(),
{
    vec!["macos-arm64", "macos-amd64", "linux-arm64", "linux-amd64"]
}

fn is_known(p: &str) -> (r: bool)
    ensures
        r == known_platform(p@),
{
    same_text(p, "macos-arm64") || same_text(p, "macos-amd64") || same_text(p, "linux-arm64") || same_text(
        p,
        "linux-amd64",
    )
}

/// The URL path of the client for a platform.
pub fn binary_url_path(platform: &str) -> (r: String)
    ensures
        r@ == "/dist/binary/"@ + platform@ + "/cosmon-remote"@,
{
    concat3("/dist/binary/", platform, "/cosmon-remote")
}

/// Where the clients lie on disk.
#[derive(Clone, Debug)]
pub struct DistState {
    pub root: String,
}

impl DistState {
    pub fn new(root: &str) -> (r: Self)
        ensures
            r.root@ == root@,
    {
        DistState { root: root.to_owned() }
    }

    /// The file of a known platform; none for any other.
    pub fn binary_path(&self, platform: &str) -> (r: Option<String>)
        ensures
            r is Some <==> known_platform(platform@),
            r is Some ==> (r->0)@ == paths::joined(paths::joined(self.root@, platform@), "cosmon-remote"@),
    {
        if is_known(platform) {
            let dir = join(self.root.as_str(), platform);
            Some(join(dir.as_str(), "cosmon-remote"))
        } else {
            None
        }
    }
}

/// What is said of a platform that no client is built for.
pub open spec fn unknown_platform_text(platform: Seq<char>) -> Seq<char> {
    "unknown platform "@ + text::quoted_of(platform)
        + " — known: macos-arm64, macos-amd64, linux-arm64, linux-amd64"@
}

/// The file to serve for a platform, or what is said where there is none.
pub fn serve_binary(dist: &DistState, platform: &str) -> (r: Result<String, (u16, String)>)
    ensures
        match r {
            Ok(path) => known_platform(platform@) && path@ == paths::joined(
                paths::joined(dist.root@, platform@),
                "cosmon-remote"@,
            ),
            Err(refusal) => !known_platform(platform@) && refusal.0 == 404 && refusal.1@ == unknown_platform_text(
                platform@,
            ),
        },
{
    match dist.binary_path(platform) {
        Some(path) => Ok(path),
        None => {
            let shown = quoted(platform);
            Err(
                (
                    404,
                    concat3(
                        "unknown platform ",
                        shown.as_str(),
                        " — known: macos-arm64, macos-amd64, linux-arm64, linux-amd64",
                    ),
                ),
            )
        },
    }
}

/// Why a client could not be read.
#[derive(Clone, Debug)]
pub enum ReadFailure {
    Missing,
    Other { error: String },
}

/// The answer where a client could not be read.
pub fn read_refusal(path: &str, failure: &ReadFailure) -> (r: (u16, String))
    ensures
        match *failure {
            ReadFailure::Missing => r.0 == 404 && r.1@
                == "binary not found on adapter — image built without `just dist-binaries`? ("@ + path@ + ")"@,
            ReadFailure::Other { error } => r.0 == 500 && r.1@ == "read "@ + path@ + ": "@ + error@,
        },
{
    match failure {
        ReadFailure::Missing => (
            404,
            concat3("binary not found on adapter — image built without `just dist-binaries`? (", path, ")"),
        ),
        ReadFailure::Other { error } => {
            let mut out = concat3("read ", path, ": ");
            out.push_str(error.as_str());
            (500, out)
        },
    }
}

/// No known platform can step out of the directory of the clients: the path
/// begins with the root.
pub proof fn law_served_files_stay_under_the_root(root: Seq<char>, platform: Seq<char>)
    requires
        known_platform(platform),
    ensures
        text::starts_with(paths::joined(paths::joined(root, platform), "cosmon-remote"@), root),
{
    reveal_strlit("macos-arm64");
    reveal_strlit("macos-amd64");
    reveal_strlit("linux-arm64");
    reveal_strlit("linux-amd64");
    reveal_strlit("cosmon-remote");
    let dir = paths::joined(root, platform);
    let file = paths::joined(dir, "cosmon-remote"@);
    assert(dir.take(root.len() as int) =~= root);
    assert(file.take(dir.len() as int) =~= dir);
    assert(file.take(root.len() as int) =~= root);
}

// ---------------------------------------------------------------------------
// Laws
// ---------------------------------------------------------------------------


/// Clients are built for two systems on two machines each, and nothing else.
pub proof fn law_platforms(p: Seq<char>)
    ensures
        known_platform("macos-arm64"@) && known_platform("macos-amd64"@) && known_platform("linux-arm64"@) && known_platform(
            "linux-amd64"@,
        ),
        known_platform(p) ==> p == "macos-arm64"@ || p == "macos-amd64"@ || p == "linux-arm64"@ || p == "linux-amd64"@,
        platforms().len() == 4,
        platforms()[0]@ == "macos-arm64"@ && platforms()[1]@ == "macos-amd64"@ && platforms()[2]@ == "linux-arm64"@
            && platforms()[3]@ == "linux-amd64"@,
        unknown_platform_text(p) == "unknown platform "@ + text::quoted_of(p)
            + " — known: macos-arm64, macos-amd64, linux-arm64, linux-amd64"@,
{
}

} // verus!
