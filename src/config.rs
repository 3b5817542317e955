//! Server configuration: the operating mode and where things are.
use vstd::prelude::*;
use vstd::string::*;
use crate::text::{lower_of, lowercase, same_text};

verus! {

/// Stateless mode serves the documents' examples; stateful mode backs the
/// fixed endpoints with in-memory stores.
#[derive(Clone, Copy, Debug, PartialEq, Eq, Structural)]
pub enum MockMode {
    Stateless,
    Stateful,
}

impl Default for MockMode {
    fn default() -> (r: MockMode)
        ensures
            r == MockMode::Stateful,
    {
        MockMode::Stateful
    }
}

pub open spec fn mode_error(s: Seq<char>) -> Seq<char> {
    "Invalid mode: "@ + s + ". Use 'stateless' or 'stateful'"@
}

impl MockMode {
    /// The mode named by `lowered`, the lower-cased form of `original`; the
    /// error names `original`.
    pub fn from_lowercase(lowered: &str, original: &str) -> (r: Result<MockMode, String>)
        ensures
            lowered@ == "stateless"@ ==> r == Ok::<MockMode, String>(MockMode::Stateless),
            lowered@ == "stateful"@ ==> r == Ok::<MockMode, String>(MockMode::Stateful),
            lowered@ != "stateless"@ && lowered@ != "stateful"@ ==> r is Err && r->Err_0@ == mode_error(original@),
    {
        proof {
            reveal_strlit("stateless");
            reveal_strlit("stateful");
            assert("stateless"@.len() == 9);
            assert("stateful"@.len() == 8);
            assert("stateless"@ != "stateful"@);
        }
        if same_text(lowered, "stateless") {
            Ok(MockMode::Stateless)
        } else if same_text(lowered, "stateful") {
            Ok(MockMode::Stateful)
        } else {
            let mut msg = String::from_str("Invalid mode: ");
            msg.append(original);
            msg.append(". Use 'stateless' or 'stateful'");
            Err(msg)
        }
    }

    /// The mode named by `s`, in any letter case.
    pub fn parse(s: &str) -> (r: Result<MockMode, String>)
        ensures
            lower_of(s@) == "stateless"@ ==> r == Ok::<MockMode, String>(MockMode::Stateless),
            lower_of(s@) == "stateful"@ ==> r == Ok::<MockMode, String>(MockMode::Stateful),
            lower_of(s@) != "stateless"@ && lower_of(s@) != "stateful"@ ==> r is Err && r->Err_0@ == mode_error(s@),
    {
        let lowered = lowercase(s);
        Self::from_lowercase(lowered.as_str(), s)
    }
}

impl std::str::FromStr for MockMode {
    type Err = String;

    fn from_str(s: &str) -> Result<MockMode, String> {
        MockMode::parse(s)
    }
}

pub struct MockServerConfig {
    pub mode: MockMode,
    /// Root directory of the specification documents.
    pub openapi_dir: String,
    /// Where state would be persisted.
    pub state_file: Option<String>,
    pub verbose: bool,
    pub host: String,
    pub port: u16,
}

impl Default for MockServerConfig {
    fn default() -> (r: MockServerConfig)
        ensures
            r.mode == MockMode::Stateful,
            r.openapi_dir@ == "../aps-sdk-openapi"@,
            r.state_file is None,
            !r.verbose,
            r.host@ == "0.0.0.0"@,
            r.port == 3000,
    {
        MockServerConfig {
            mode: MockMode::Stateful,
            openapi_dir: String::from_str("../aps-sdk-openapi"),
            state_file: None,
            verbose: false,
            host: String::from_str("0.0.0.0"),
            port: 3000,
        }
    }
}

} // verus!
