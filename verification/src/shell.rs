//! Helpers of the desktop shell that launches the server: the backend URL,
//! Windows extended-length path prefixes, and where the server executable
//! is looked for.

use vstd::prelude::*;

verus! {

/// URL of the local backend.
pub fn get_backend_url() -> (r: String)
    ensures
        r@ == "http://localhost:8008"@,
{
    String::from_str("http://localhost:8008")
}

/// The Windows extended-length path prefix `\\?\`.
pub open spec fn extended_prefix() -> Seq<char> {
    seq!['\\', '\\', '?', '\\']
}

/// `path` without a leading `\\?\`.
pub open spec fn without_extended_prefix(path: Seq<char>) -> Seq<char> {
    if path.len() >= 4 && path.subrange(0, 4) == extended_prefix() {
        path.subrange(4, path.len() as int)
    } else {
        path
    }
}

/// A path that begins with the four characters `\\?\` loses exactly
/// those four; any other path is left as it is.
pub proof fn lemma_strip_only_the_prefix(path: Seq<char>)
    ensures
        (path.len() >= 4 && path[0] == '\\' && path[1] == '\\' && path[2] == '?' && path[3] == '\\') ==> {
            &&& without_extended_prefix(path) == path.subrange(4, path.len() as int)
            &&& seq!['\\', '\\', '?', '\\'] + without_extended_prefix(path) == path
        },
        !(path.len() >= 4 && path[0] == '\\' && path[1] == '\\' && path[2] == '?' && path[3] == '\\')
            ==> without_extended_prefix(path) == path,
{
    if path.len() >= 4 {
        let head = path.subrange(0, 4);
        if path[0] == '\\' && path[1] == '\\' && path[2] == '?' && path[3] == '\\' {
            assert(head =~= extended_prefix());
            assert(seq!['\\', '\\', '?', '\\'] + path.subrange(4, path.len() as int) =~= path);
        } else if head == extended_prefix() {
            assert(path[0] == head[0] && path[1] == head[1] && path[2] == head[2] && path[3] == head[3]);
        }
    }
}

/// Remove a leading `\\?\`, which breaks some file operations.
pub fn strip_extended_prefix(path: &str) -> (r: String)
    ensures
        r@ == without_extended_prefix(path@),
        (path@.len() >= 4 && path@[0] == '\\' && path@[1] == '\\' && path@[2] == '?' && path@[3] == '\\') ==> r@
            == path@.subrange(4, path@.len() as int),
        !(path@.len() >= 4 && path@[0] == '\\' && path@[1] == '\\' && path@[2] == '?' && path@[3] == '\\') ==> r@
            == path@,
{
    proof {
        lemma_strip_only_the_prefix(path@);
    }
    let n = path.unicode_len();
    if n >= 4 && path.get_char(0) == '\\' && path.get_char(1) == '\\' && path.get_char(2) == '?' && path.get_char(3)
        == '\\' {
        assert(path@.subrange(0, 4) =~= extended_prefix());
        String::from_str(path.substring_char(4, n))
    } else {
        proof {
            if n >= 4 && path@.subrange(0, 4) == extended_prefix() {
                assert(path@[0] == path@.subrange(0, 4)[0]);
                assert(path@[1] == path@.subrange(0, 4)[1]);
                assert(path@[2] == path@.subrange(0, 4)[2]);
                assert(path@[3] == path@.subrange(0, 4)[3]);
            }
        }
        String::from_str(path)
    }
}

/// The target triple of the server executable for an operating system.
pub open spec fn triple_for(os: Seq<char>) -> Seq<char> {
    if os == "windows"@ {
        "x86_64-pc-windows-msvc"@
    } else if os == "linux"@ {
        "x86_64-unknown-linux-gnu"@
    } else {
        "aarch64-apple-darwin"@
    }
}

/// The target triple of the server executable for an operating system
/// (`std::env::consts::OS`).
pub fn target_triple(os: &str) -> (r: &'static str)
    ensures
        r@ == triple_for(os@),
{
    if crate::text::str_eq(os, "windows") {
        "x86_64-pc-windows-msvc"
    } else if crate::text::str_eq(os, "linux") {
        "x86_64-unknown-linux-gnu"
    } else {
        "aarch64-apple-darwin"
    }
}

/// Where the server executable is looked for, relative to the resource
/// directory: the flat install, then the sidecar naming with the target
/// triple.
pub fn server_exe_candidates(triple: &str, exe_suffix: &str) -> (r: Vec<String>)
    ensures
        r@.len() == 2,
        r@[0]@ == "deep-forge-server"@ + exe_suffix@,
        r@[1]@ == "binaries/deep-forge-server-"@ + triple@ + exe_suffix@,
{
    let mut flat = String::from_str("deep-forge-server");
    flat.append(exe_suffix);
    let mut sidecar = String::from_str("binaries/deep-forge-server-");
    sidecar.append(triple);
    sidecar.append(exe_suffix);
    let mut r: Vec<String> = Vec::new();
    r.push(flat);
    r.push(sidecar);
    r
}

/// The executable file name next to the shell, as a last resort.
pub fn server_exe_name(exe_suffix: &str) -> (r: String)
    ensures
        r@ == "deep-forge-server"@ + exe_suffix@,
{
    let mut r = String::from_str("deep-forge-server");
    r.append(exe_suffix);
    r
}

} // verus!
