//! The command line of the converter: which file and format go in and come
//! out, with stdin and stdout where no file is named.
use vstd::prelude::*;
use crate::text::{last_piece, last_piece_of};

verus! {

/// The arguments.  `infile` is `None` when not given and `Some(None)` when
/// given without a path (stdin); `outfile` likewise (stdout).
pub struct Cli {
    pub infile: Option<Option<String>>,
    pub informat: Option<String>,
    pub outfile: Option<Option<String>>,
    pub outformat: Option<String>,
}

/// A missing argument.
#[derive(Copy, Clone, Debug, PartialEq, Eq, Structural)]
pub enum CliError {
    MissingInfile,
    MissingInformat,
    MissingOutfile,
    MissingOutformat,
}

impl CliError {
    pub fn message(&self) -> (r: &'static str)
        ensures
            *self == CliError::MissingInfile ==> r@ == "--infile is required"@,
            *self == CliError::MissingInformat ==> r@ == "--informat is required when using stdin"@,
            *self == CliError::MissingOutfile ==> r@ == "--outfile is required"@,
            *self == CliError::MissingOutformat ==> r@ == "--outformat is required when using stdout"@,
    {
        match self {
            CliError::MissingInfile => "--infile is required",
            CliError::MissingInformat => "--informat is required when using stdin",
            CliError::MissingOutfile => "--outfile is required",
            CliError::MissingOutformat => "--outformat is required when using stdout",
        }
    }
}

/// What to convert: a file or stdin of a format, into a file or stdout of a
/// format.
pub struct CliPlan {
    pub infile: Option<String>,
    pub informat: String,
    pub outfile: Option<String>,
    pub outformat: String,
}

/// The format of a path: its last dot piece.
pub open spec fn format_of_path(path: Seq<char>) -> Seq<char> {
    last_piece(path, '.')
}

/// The format named, else that of the file.
pub open spec fn chosen_format(named: Option<String>, file: Option<String>) -> Seq<char> {
    match named {
        Some(f) => f@,
        None => format_of_path(file.unwrap()@),
    }
}

impl Cli {
    /// Checks the arguments as the converter does, in order: an input is
    /// named, stdin comes with a format, an output is named, stdout comes with
    /// a format; then fills in each format missing from its file's extension.
    pub fn plan(self) -> (r: Result<CliPlan, CliError>)
        ensures
            self.infile is None ==> r == Err::<CliPlan, CliError>(CliError::MissingInfile),
            self.infile == Some(None::<String>) && self.informat is None ==> r == Err::<CliPlan, CliError>(
                CliError::MissingInformat,
            ),
            (self.infile is Some && !(self.infile == Some(None::<String>) && self.informat is None)
                && self.outfile is None) ==> r == Err::<CliPlan, CliError>(CliError::MissingOutfile),
            (self.infile is Some && !(self.infile == Some(None::<String>) && self.informat is None)
                && self.outfile == Some(None::<String>) && self.outformat is None) ==> r == Err::<
                CliPlan,
                CliError,
            >(CliError::MissingOutformat),
            r is Ok <==> (self.infile is Some && !(self.infile == Some(None::<String>) && self.informat is None)
                && self.outfile is Some && !(self.outfile == Some(None::<String>) && self.outformat is None)),
            r matches Ok(p) ==> {
                &&& p.infile == self.infile.unwrap()
                &&& p.outfile == self.outfile.unwrap()
                &&& p.informat@ == chosen_format(self.informat, self.infile.unwrap())
                &&& p.outformat@ == chosen_format(self.outformat, self.outfile.unwrap())
            },
    {
        let infile = match self.infile {
            Some(f) => f,
            None => return Err(CliError::MissingInfile),
        };
        if infile.is_none() && self.informat.is_none() {
            return Err(CliError::MissingInformat);
        }
        let outfile = match self.outfile {
            Some(f) => f,
            None => return Err(CliError::MissingOutfile),
        };
        if outfile.is_none() && self.outformat.is_none() {
            return Err(CliError::MissingOutformat);
        }
        let informat = match self.informat {
            Some(f) => f,
            None => {
                let path = infile.as_ref().unwrap();
                last_piece_of(path.as_str(), '.')
            },
        };
        let outformat = match self.outformat {
            Some(f) => f,
            None => {
                let path = outfile.as_ref().unwrap();
                last_piece_of(path.as_str(), '.')
            },
        };
        Ok(CliPlan { infile, informat, outfile, outformat })
    }
}

} // verus!
