//! The log-destination configuration value and its parser.

use vstd::prelude::*;
use vstd::string::StringExecFns;
use crate::error::Error;
use crate::text::str_eq;

verus! {

/// Where the service writes its logs.
#[derive(Copy, Clone, PartialEq, Eq, Debug)]
pub enum Logging {
    Fmt,
    Journald,
}

impl Logging {
    /// Parses a log destination: exactly "stdout" and "journald" are kinds of
    /// logging; anything else is rejected with a message that names the
    /// offending input.
    pub fn from_str(s: &str) -> (r: Result<Logging, Error>)
        ensures
            s@ == "stdout"@ ==> (r matches Ok(l) && l is Fmt),
            s@ == "journald"@ ==> (r matches Ok(l) && l is Journald),
            s@ != "stdout"@ && s@ != "journald"@ ==> (r matches Err(e) && e.message@
                == "not a kind of logging: "@ + s@),
    {
        proof {
            reveal_strlit("stdout");
            reveal_strlit("journald");
            assert("stdout"@.len() == 6);
            assert("journald"@.len() == 8);
            assert("stdout"@ != "journald"@);
        }
        if str_eq(s, "stdout") {
            Ok(Logging::Fmt)
        } else if str_eq(s, "journald") {
            Ok(Logging::Journald)
        } else {
            let mut message = "not a kind of logging: ".to_owned();
            message.append(s);
            Err(Error { message })
        }
    }
}

} // verus!
