use vstd::prelude::*;
use crate::text::{chars_of, string_of};

verus! {

/// The operating systems whose conventional install locations are known.
#[derive(Clone, Copy, Debug, PartialEq, Eq, Structural)]
pub enum Platform {
    Windows,
    MacOs,
    Linux,
    Other,
}

/// The host's operating system, architecture and home directory.
#[derive(Clone, Debug)]
pub struct PlatformInfo {
    pub os: String,
    pub arch: String,
    pub home: String,
}

/// The file name suffix of executables: `.exe` on Windows, none elsewhere.
pub fn get_executable_extension(platform: Platform) -> (r: &'static str)
    ensures
        r@ == if platform == Platform::Windows { ".exe"@ } else { ""@ },
{
    match platform {
        Platform::Windows => ".exe",
        _ => "",
    }
}

/// The separator of entries in a search path list: `;` on Windows, `:`
/// elsewhere.
pub fn get_path_separator(platform: Platform) -> (r: &'static str)
    ensures
        r@ == if platform == Platform::Windows { ";"@ } else { ":"@ },
{
    match platform {
        Platform::Windows => ";",
        _ => ":",
    }
}

/// `c` with the separator of the other family of platforms turned into
/// this platform's own.
pub open spec fn native_separator(platform: Platform, c: char) -> char {
    if platform == Platform::Windows {
        if c == '/' { '\\' } else { c }
    } else {
        if c == '\\' { '/' } else { c }
    }
}

/// `path` with every separator written the way `platform` writes it.
pub fn normalize_path_separators(path: &str, platform: Platform) -> (r: String)
    ensures
        r@ == path@.map_values(|c: char| native_separator(platform, c)),
{
    let cs = chars_of(path);
    let mut out: Vec<char> = Vec::new();
    let mut i: usize = 0;
    while i < cs.len()
        invariant
            i <= cs@.len(),
            out@ == cs@.take(i as int).map_values(|c: char| native_separator(platform, c)),
        decreases cs@.len() - i,
    {
        let c = cs[i];
        let d = match platform {
            Platform::Windows => if c == '/' { '\\' } else { c },
            _ => if c == '\\' { '/' } else { c },
        };
        out.push(d);
        assert(out@ =~= cs@.take(i + 1).map_values(|c: char| native_separator(platform, c)));
        i = i + 1;
    }
    assert(cs@.take(i as int) =~= cs@);
    string_of(&out)
}

} // verus!
