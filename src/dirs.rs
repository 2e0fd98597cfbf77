//! The project root directory, found from where the running program lies.
//!
//! A path is the list of its components: the root directory, where the path
//! has one, is the component `/`.
use vstd::prelude::*;

use crate::text::same_text;

verus! {

/// The components of a path, as texts.
pub open spec fn parts(p: Seq<String>) -> Seq<Seq<char>> {
    p.map_values(|c: String| c@)
}

pub open spec fn debug_word() -> Seq<char> {
    seq!['d', 'e', 'b', 'u', 'g']
}

pub open spec fn release_word() -> Seq<char> {
    seq!['r', 'e', 'l', 'e', 'a', 's', 'e']
}

pub open spec fn target_word() -> Seq<char> {
    seq!['t', 'a', 'r', 'g', 'e', 't']
}

pub open spec fn bin_word() -> Seq<char> {
    seq!['b', 'i', 'n']
}

pub open spec fn root_word() -> Seq<char> {
    seq!['/']
}

/// The project root of a program at `exe`: three levels up from a program in
/// a build directory `target/debug` or `target/release`, two levels up from a
/// program in a `bin` directory, and none otherwise.
pub open spec fn root_of(exe: Seq<Seq<char>>) -> Option<Seq<Seq<char>>> {
    let n = exe.len() as int;
    if n >= 3 && (exe[n - 2] == debug_word() || exe[n - 2] == release_word()) && exe[n - 3]
        == target_word() {
        Some(exe.take(n - 3))
    } else if n >= 2 && exe[n - 2] == bin_word() {
        Some(exe.take(n - 2))
    } else {
        None
    }
}

/// Whether a path is relative: it does not start at the root directory.
pub open spec fn is_relative(p: Seq<Seq<char>>) -> bool {
    p.len() == 0 || p[0] != root_word()
}

/// Why a root-relative path could not be formed.
pub enum DirError {
    /// The path to resolve is not relative.
    NotRelative { path: Vec<String> },
    /// The program does not lie in a layout that names a project root.
    UnknownLayout { exe: Vec<String> },
}

/// Drops the last `n` components of a path.
pub fn discard_n(pb: &mut Vec<String>, n: u32)
    requires
        n <= old(pb)@.len(),
    ensures
        final(pb)@ == old(pb)@.take(old(pb)@.len() - n),
{
    let mut k: u32 = 0;
    while k < n
        invariant
            k <= n <= old(pb)@.len(),
            pb@ == old(pb)@.take(old(pb)@.len() - k),
        decreases n - k,
    {
        pb.pop();
        assert(pb@ =~= old(pb)@.take(old(pb)@.len() - (k + 1)));
        k += 1;
    }
}

/// Whether a component reads `name`.
pub fn is_component(c: &String, name: &str) -> (r: bool)
    ensures
        r == (c@ == name@),
{
    same_text(c.as_str(), name)
}

/// `r` is `p` made whole against the project root of the program at `exe`:
/// an error where `p` is not relative or `exe` names no root.
pub open spec fn resolved(p: Seq<String>, exe: Seq<String>, r: Result<Vec<String>, DirError>) -> bool {
    if !is_relative(parts(p)) {
        r matches Err(DirError::NotRelative { path }) && path@ == p
    } else {
        match root_of(parts(exe)) {
            Some(root) => r matches Ok(v) && parts(v@) == root + parts(p),
            None => r matches Err(DirError::UnknownLayout { exe: e }) && e@ == exe,
        }
    }
}

/// The project root directory of the program at `exe`.
pub fn rootdir(exe: Vec<String>) -> (r: Result<Vec<String>, DirError>)
    ensures
        match root_of(parts(exe@)) {
            Some(root) => r matches Ok(v) && parts(v@) == root,
            None => r matches Err(DirError::UnknownLayout { exe: e }) && e@ == exe@,
        },
{
    let n = exe.len();
    let ghost ps = parts(exe@);
    proof {
        reveal_strlit("debug");
        reveal_strlit("release");
        reveal_strlit("target");
        reveal_strlit("bin");
        assert("debug"@ =~= debug_word());
        assert("release"@ =~= release_word());
        assert("target"@ =~= target_word());
        assert("bin"@ =~= bin_word());
    }
    if n >= 3 && (is_component(&exe[n - 2], "debug") || is_component(&exe[n - 2], "release"))
        && is_component(&exe[n - 3], "target") {
        let mut root = exe;
        discard_n(&mut root, 3);
        assert(parts(root@) =~= ps.take(n - 3));
        return Ok(root);
    }
    if n >= 2 && is_component(&exe[n - 2], "bin") {
        let mut root = exe;
        discard_n(&mut root, 2);
        assert(parts(root@) =~= ps.take(n - 2));
        return Ok(root);
    }
    Err(DirError::UnknownLayout { exe })
}

/// The path `p`, relative to the project root of the program at `exe`, made
/// whole.
pub fn rootpath(p: Vec<String>, exe: Vec<String>) -> (r: Result<Vec<String>, DirError>)
    ensures
        resolved(p@, exe@, r),
{
    proof {
        reveal_strlit("/");
        assert("/"@ =~= root_word());
    }
    if p.len() > 0 && is_component(&p[0], "/") {
        return Err(DirError::NotRelative { path: p });
    }
    let mut path = rootdir(exe)?;
    let ghost base = path@;
    let mut rest = p;
    path.append(&mut rest);
    assert(parts(path@) =~= parts(base) + parts(p@));
    Ok(path)
}

} // verus!
