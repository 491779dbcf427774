//! Failures met while reading or creating a `niter.json` project, each with
//! its message.

use vstd::prelude::*;
use vstd::string::*;

verus! {

#[derive(Debug)]
pub struct ModAlreadyAdded(pub String);

#[derive(Debug)]
pub struct FormatValueExpected;

#[derive(Debug)]
pub struct MainFileAlreadyExists;

#[derive(Debug)]
pub struct MainFileNotFound;

#[derive(Debug)]
pub struct NotADirectory;

#[derive(Debug)]
pub struct UnsupportedFormat(pub String);

/// The one format of `niter.json` that is read.
pub const SUPPORTED_FORMAT: &'static str = "0beta";

impl ModAlreadyAdded {
    pub fn message(&self) -> (r: String)
        ensures
            r@ == "mod '"@ + self.0@ + "' is already added"@,
    {
        let mut r = String::from_str("mod '");
        r.append(self.0.as_str());
        r.append("' is already added");
        r
    }
}

impl FormatValueExpected {
    pub fn message(&self) -> (r: String)
        ensures
            r@ == "value for 'format' in 'niter.json' not found"@,
    {
        String::from_str("value for 'format' in 'niter.json' not found")
    }
}

impl MainFileAlreadyExists {
    pub fn message(&self) -> (r: String)
        ensures
            r@ == "file 'niter.json' already exists"@,
    {
        String::from_str("file 'niter.json' already exists")
    }
}

impl MainFileNotFound {
    pub fn message(&self) -> (r: String)
        ensures
            r@ == "could not find 'niter.json'"@,
    {
        String::from_str("could not find 'niter.json'")
    }
}

impl NotADirectory {
    pub fn message(&self) -> (r: String)
        ensures
            r@ == "not a directory"@,
    {
        String::from_str("not a directory")
    }
}

impl UnsupportedFormat {
    pub fn message(&self) -> (r: String)
        ensures
            r@ == "format '"@ + self.0@ + "' is not supported"@,
    {
        let mut r = String::from_str("format '");
        r.append(self.0.as_str());
        r.append("' is not supported");
        r
    }
}

/// Accepts the `format` value of a main file: it must be present and be the
/// supported format.
pub fn check_format(format: Option<&str>) -> (r: Result<(), CheckFormatError>)
    ensures
        match format {
            None => r matches Err(CheckFormatError::Missing(_)),
            Some(f) => if f@ == SUPPORTED_FORMAT@ {
                r is Ok
            } else {
                r matches Err(CheckFormatError::Unsupported(UnsupportedFormat(g))) && g@ == f@
            },
        },
{
    match format {
        None => Err(CheckFormatError::Missing(FormatValueExpected)),
        Some(f) => {
            let s = f.to_string();
            let supported = String::from_str(SUPPORTED_FORMAT);
            if s == supported {
                Ok(())
            } else {
                Err(CheckFormatError::Unsupported(UnsupportedFormat(s)))
            }
        },
    }
}

/// Why a main file's `format` value is refused.
#[derive(Debug)]
pub enum CheckFormatError {
    Missing(FormatValueExpected),
    Unsupported(UnsupportedFormat),
}

} // verus!
