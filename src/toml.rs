//! Errors of the configuration snapshot files, each tied to the file it
//! concerns.
use vstd::prelude::*;
use vstd::string::StringExecFns;

verus! {

/// A failure to read or write a configuration file at `path`.
pub struct TomlError {
    pub msg: String,
    pub path: String,
}

impl TomlError {
    /// The error as one line: `TOML file "<path>": <msg>`.
    pub fn describe(&self) -> (r: String)
        ensures
            r@ == describe_text(self.path@, self.msg@),
    {
        let mut s = <String as StringExecFns>::from_str("TOML file \"");
        s.append(self.path.as_str());
        s.append("\": ");
        s.append(self.msg.as_str());
        proof {
            reveal_strlit("TOML file \"");
            reveal_strlit("\": ");
            assert(s@ =~= describe_text(self.path@, self.msg@));
        }
        s
    }
}

/// `TOML file "<path>": <msg>`.
pub open spec fn describe_text(path: Seq<char>, msg: Seq<char>) -> Seq<char> {
    seq!['T', 'O', 'M', 'L', ' ', 'f', 'i', 'l', 'e', ' ', '"'] + path + seq!['"', ':', ' ']
        + msg
}

/// An error with message `msg` about the file at `path`.
pub fn e(msg: &str, path: &str) -> (r: TomlError)
    ensures
        r.msg@ == msg@,
        r.path@ == path@,
{
    TomlError { msg: <String as StringExecFns>::from_str(msg), path: <String as StringExecFns>::from_str(path) }
}

/// Ties the error of a result to the file it concerns.
pub trait Context<T, E>: Sized {
    /// `r` is `self` with its error tied to `path`.
    spec fn tied(self, path: Seq<char>, r: Result<T, TomlError>) -> bool;

    fn context(self, path: &str) -> (r: Result<T, TomlError>)
        ensures
            self.tied(path@, r),
    ;
}

impl<T> Context<T, String> for Result<T, String> {
    open spec fn tied(self, path: Seq<char>, r: Result<T, TomlError>) -> bool {
        match self {
            Ok(v) => r == Ok::<T, TomlError>(v),
            Err(m) => r matches Err(te) && te.msg == m && te.path@ == path,
        }
    }

    fn context(self, path: &str) -> (r: Result<T, TomlError>) {
        match self {
            Ok(v) => Ok(v),
            Err(m) => Err(TomlError { msg: m, path: <String as StringExecFns>::from_str(path) }),
        }
    }
}

} // verus!
