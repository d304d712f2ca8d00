//! Where the build tool is: in the project's own virtual environment, nowhere else.

use crate::text::{concat2, concat3};
use vstd::prelude::*;

verus! {

/// What a look at the build tool's place in the virtual environment gave.
#[derive(Debug)]
pub enum PioProbe {
    /// Nothing is there.
    Missing,
    /// Something is there, and its metadata could not be read: the error's text.
    Unreadable(String),
    /// Something is there, with these permission bits, where the platform has any.
    Found { mode: Option<u32> },
}

/// The bits that make a file executable for its owner, its group or anyone.
pub const EXECUTE_BITS: u32 = 0o111;

/// What is said where the build tool is not there, with how to install it.
pub open spec fn not_found_message(venv_pio: Seq<char>) -> Seq<char> {
    "PlatformIO not found at "@ + venv_pio
        + "\n\nRun these commands from the repo root:\n\nuv venv .venv\nuv pip install platformio --python .venv/bin/python\n\nSee docs/build-and-tooling.md for details."@
}

/// What is said where the build tool is there and may not be run.
pub open spec fn not_executable_message(venv_pio: Seq<char>) -> Seq<char> {
    "PlatformIO found at "@ + venv_pio + " but is not executable. Run: chmod +x "@ + venv_pio
}

/// Why the build tool at `venv_pio` cannot be used, if it cannot.
pub open spec fn pio_path_error(venv_pio: Seq<char>, probe: PioProbe) -> Option<Seq<char>> {
    match probe {
        PioProbe::Missing => Some(not_found_message(venv_pio)),
        PioProbe::Unreadable(e) => Some("Failed to read PlatformIO metadata: "@ + e@),
        PioProbe::Found { mode: Some(bits) } => if bits & EXECUTE_BITS == 0 {
            Some(not_executable_message(venv_pio))
        } else {
            None
        },
        PioProbe::Found { mode: None } => None,
    }
}

/// Resolves the build tool's path from the project's virtual environment.
///
/// `venv_pio` is the place it has there on this platform, `probe` what was found
/// at that place. There is no falling back to whatever the system offers.
pub fn resolve_pio_path(venv_pio: &str, probe: &PioProbe) -> (r: Result<String, String>)
    ensures
        match r {
            Ok(path) => pio_path_error(venv_pio@, *probe) is None && path@ == venv_pio@,
            Err(e) => pio_path_error(venv_pio@, *probe) == Some(e@),
        },
{
    match probe {
        PioProbe::Missing => Err(
            concat3(
                "PlatformIO not found at ",
                venv_pio,
                "\n\nRun these commands from the repo root:\n\nuv venv .venv\nuv pip install platformio --python .venv/bin/python\n\nSee docs/build-and-tooling.md for details.",
            ),
        ),
        PioProbe::Unreadable(e) => Err(concat2("Failed to read PlatformIO metadata: ", e.as_str())),
        PioProbe::Found { mode: Some(bits) } => {
            if *bits & EXECUTE_BITS == 0 {
                let mut message = concat3(
                    "PlatformIO found at ",
                    venv_pio,
                    " but is not executable. Run: chmod +x ",
                );
                message.append(venv_pio);
                Err(message)
            } else {
                Ok(String::from_str(venv_pio))
            }
        },
        PioProbe::Found { mode: None } => Ok(String::from_str(venv_pio)),
    }
}

} // verus!
