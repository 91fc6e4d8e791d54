//! Whether this host is a WSL2 guest, decided from the kernel's release text.

use vstd::prelude::*;
use vstd::string::*;
use crate::text::{optional_str, to_chars};

verus! {

/// Whether the marker `wsl2` stands at position `i` of `s`, in either case
/// of its letters.
pub open spec fn marker_at(s: Seq<char>, i: int) -> bool {
    &&& 0 <= i
    &&& i + 4 <= s.len()
    &&& (s[i] == 'w' || s[i] == 'W')
    &&& (s[i + 1] == 's' || s[i + 1] == 'S')
    &&& (s[i + 2] == 'l' || s[i + 2] == 'L')
    &&& s[i + 3] == '2'
}

/// Whether the marker stands anywhere in `s`.
pub open spec fn holds_marker(s: Seq<char>) -> bool {
    exists|i: int| marker_at(s, i)
}

/// Whether a kernel release text, where one could be read, names WSL2.
pub open spec fn names_wsl2(os_release: Option<Seq<char>>) -> bool {
    match os_release {
        Some(text) => holds_marker(text),
        None => false,
    }
}

/// The answer that is remembered once it has been given.
#[derive(Clone, Copy, Debug, PartialEq, Eq)]
pub struct HostProbe {
    pub known: Option<bool>,
}

/// Why the host is refused.
#[derive(Clone, Copy, Debug, PartialEq, Eq)]
pub enum HostError {
    /// The host is no WSL2 guest.
    Unsupported,
}

impl HostError {
    /// The message for the user.
    pub fn message(&self) -> (text: String)
        ensures
            text@ == "This command can only be used in a WSL2 environment"@,
    {
        String::from_str("This command can only be used in a WSL2 environment")
    }
}

impl HostProbe {
    /// A probe that has not answered yet.
    pub fn new() -> (probe: HostProbe)
        ensures
            probe.known is None,
    {
        HostProbe { known: None }
    }
}

/// Whether the release text names WSL2; a text that could not be read
/// counts as one that does not.
pub fn _is_wsl2(os_release: Option<&str>) -> (yes: bool)
    ensures
        yes == names_wsl2(optional_str(os_release)),
{
    match os_release {
        None => false,
        Some(text) => {
            let s = to_chars(text);
            let mut i: usize = 0;
            while i < s.len() && s.len() - i >= 4
                invariant
                    i <= s.len(),
                    s@ == text@,
                    os_release == Some(text),
                    forall|k: int| 0 <= k < i ==> !marker_at(s@, k),
                decreases s.len() - i,
            {
                if (s[i] == 'w' || s[i] == 'W') && (s[i + 1] == 's' || s[i + 1] == 'S') && (s[i
                    + 2] == 'l' || s[i + 2] == 'L') && s[i + 3] == '2' {
                    assert(marker_at(text@, i as int));
                    assert(holds_marker(text@));
                    return true;
                }
                i += 1;
            }
            assert(forall|k: int| !marker_at(s@, k));
            false
        },
    }
}

/// The first answer of [`_is_wsl2`] through `probe`, which keeps it: later
/// calls repeat it whatever text they are given.
pub fn is_wsl2(probe: &mut HostProbe, os_release: Option<&str>) -> (yes: bool)
    ensures
        yes == match old(probe).known {
            Some(answer) => answer,
            None => names_wsl2(optional_str(os_release)),
        },
        final(probe).known == Some(yes),
{
    match probe.known {
        Some(answer) => answer,
        None => {
            let answer = _is_wsl2(os_release);
            probe.known = Some(answer);
            answer
        },
    }
}

/// Passes on a WSL2 guest and refuses every other host.
pub fn wsl2_or_exit(os_release: Option<&str>) -> (out: Result<(), HostError>)
    ensures
        out is Ok <==> names_wsl2(optional_str(os_release)),
        out is Err ==> out == Err::<(), HostError>(HostError::Unsupported),
{
    if !_is_wsl2(os_release) {
        return Err(HostError::Unsupported);
    }
    Ok(())
}

} // verus!
