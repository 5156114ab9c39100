//! The command line: the slice size, then the source files.

use vstd::prelude::*;
use vstd::string::*;
use crate::report::{error_message, error_text, ErrorKind};
use crate::size::{parse_size, size_of_text};

verus! {

/// The least number of arguments, the program's name among them: the name,
/// the slice size and one source file.
pub const MIN_ARGS: usize = 3;

/// The exit code of a run that went through its files.
pub const EXIT_SUCCESS: i32 = 0;

/// The exit code of a run whose command line was refused.
pub const EXIT_FAILURE: i32 = 1;

/// What the command line asks for.
#[derive(Debug, PartialEq, Eq)]
pub struct Config {
    /// The number of bytes in a full slice; at least 1.
    pub chunk_size: usize,
    /// The paths of the source files, in the order given; at least one.
    pub files: Vec<String>,
}

/// The text of each string of `v`.
pub open spec fn texts(v: Seq<String>) -> Seq<Seq<char>> {
    v.map_values(|s: String| s@)
}

/// What the arguments `args` ask for, `args[0]` being the program's name:
/// the slice size and the source files, or the reason why they are refused.
pub open spec fn parsed(args: Seq<Seq<char>>) -> Result<(usize, Seq<Seq<char>>), ErrorKind> {
    if args.len() < MIN_ARGS {
        Err(ErrorKind::Usage)
    } else {
        match size_of_text(args[1]) {
            Err(kind) => Err(kind),
            Ok(size) => Ok((size, args.skip(2))),
        }
    }
}

/// What the line that refuses `args` for `kind` is about: the program's
/// name where the arguments are too few, else the size as it was typed.
pub open spec fn refused_subject(args: Seq<Seq<char>>, kind: ErrorKind) -> Seq<char> {
    if kind == ErrorKind::Usage {
        if args.len() > 0 {
            args[0]
        } else {
            Seq::empty()
        }
    } else if args.len() > 1 {
        args[1]
    } else {
        Seq::empty()
    }
}

/// The line that refuses `args` for `kind`.
pub open spec fn refusal_text(args: Seq<Seq<char>>, kind: ErrorKind) -> Seq<char> {
    error_text(kind, refused_subject(args, kind))
}

/// Reads the command line `args`, `args[0]` being the program's name.
pub fn parse_args(args: &Vec<String>) -> (r: Result<Config, ErrorKind>)
    ensures
        match r {
            Ok(config) => parsed(texts(args@)) == Ok::<(usize, Seq<Seq<char>>), ErrorKind>(
                (config.chunk_size, texts(config.files@)),
            ),
            Err(kind) => parsed(texts(args@)) == Err::<(usize, Seq<Seq<char>>), ErrorKind>(kind),
        },
        r matches Ok(config) ==> config.chunk_size >= 1 && config.files@.len() >= 1,
{
    if args.len() < MIN_ARGS {
        return Err(ErrorKind::Usage);
    }
    let chunk_size = match parse_size(args[1].as_str()) {
        Ok(size) => size,
        Err(kind) => {
            return Err(kind);
        },
    };
    let mut files: Vec<String> = Vec::new();
    let mut i: usize = 2;
    while i < args.len()
        invariant
            2 <= i <= args@.len(),
            files@.len() == i - 2,
            texts(files@) == texts(args@).subrange(2, i as int),
        decreases args@.len() - i,
    {
        let path = args[i].clone();
        files.push(path);
        i += 1;
        proof {
            let wanted = texts(args@).subrange(2, i as int);
            assert forall|k: int| 0 <= k < wanted.len() implies texts(files@)[k] == wanted[k] by {}
        }
    }
    Ok(Config { chunk_size, files })
}

/// The line that refuses `args` for `kind`.
pub fn refusal_message(args: &Vec<String>, kind: ErrorKind) -> (line: String)
    ensures
        line@ == refusal_text(texts(args@), kind),
{
    let at: usize = match kind {
        ErrorKind::Usage => 0,
        _ => 1,
    };
    if at < args.len() {
        error_message(kind, args[at].as_str())
    } else {
        proof {
            reveal_strlit("");
        }
        error_message(kind, "")
    }
}

} // verus!
