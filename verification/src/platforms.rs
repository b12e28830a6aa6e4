//! Platform gating.
//!
//! A test file or a single step may be gated to a set of operating systems.
//! The host system is read at the program's edge and handed in as a plain
//! value, so admission is a pure decision.

use vstd::prelude::*;

use crate::text::{chars_of, replace_chars, replaced, string_from_chars};

verus! {

/// An operating system a test or step can be gated to.
#[derive(Debug, Clone, Copy, PartialEq, Eq, Structural)]
pub enum ToolproofPlatform {
    Linux,
    Mac,
    Windows,
}

/// The operating system the runner is executing on.
#[derive(Debug, Clone, Copy, PartialEq, Eq, Structural)]
pub enum HostPlatform {
    Linux,
    Mac,
    Windows,
    /// Any system that is none of the supported three.
    Other,
}

/// Whether a gate names the host: no gate and an empty gate admit every
/// host, and an unsupported host is admitted by no non-empty gate.
pub open spec fn spec_platform_matches(
    platforms: Option<Seq<ToolproofPlatform>>,
    host: HostPlatform,
) -> bool {
    match platforms {
        Option::None => true,
        Option::Some(list) => list.len() == 0 || (match host {
            HostPlatform::Linux => list.contains(ToolproofPlatform::Linux),
            HostPlatform::Mac => list.contains(ToolproofPlatform::Mac),
            HostPlatform::Windows => list.contains(ToolproofPlatform::Windows),
            HostPlatform::Other => false,
        }),
    }
}

/// Whether `platforms` admits the `host` system.
#[verifier::loop_isolation(false)]
pub fn platform_matches(platforms: &Option<Vec<ToolproofPlatform>>, host: HostPlatform) -> (r:
    bool)
    ensures
        r == spec_platform_matches(
            match platforms {
                Option::Some(v) => Option::Some(v@),
                Option::None => Option::None,
            },
            host,
        ),
{
    let list = match platforms {
        Option::None => {
            return true;
        },
        Option::Some(list) => list,
    };
    if list.len() == 0 {
        return true;
    }
    let wanted = match host {
        HostPlatform::Linux => ToolproofPlatform::Linux,
        HostPlatform::Mac => ToolproofPlatform::Mac,
        HostPlatform::Windows => ToolproofPlatform::Windows,
        HostPlatform::Other => {
            return false;
        },
    };
    let mut i: usize = 0;
    while i < list.len()
        invariant
            i <= list@.len(),
            forall|j: int| 0 <= j < i ==> list@[j] != wanted,
        decreases list@.len() - i,
    {
        if list[i] == wanted {
            proof {
                assert(list@[i as int] == wanted);
                assert(list@.contains(wanted));
            }
            return true;
        }
        i += 1;
    }
    proof {
        assert(!list@.contains(wanted));
    }
    false
}

/// Windows line endings replaced by plain newlines.
pub fn normalize_line_endings(s: &str) -> (r: String)
    ensures
        r@ == replaced(s@, seq!['\r', '\n'], seq!['\n']),
{
    let cs = chars_of(s);
    let pat: Vec<char> = vec!['\r', '\n'];
    let to: Vec<char> = vec!['\n'];
    let out = replace_chars(&cs, &pat, &to);
    proof {
        assert(pat@ =~= seq!['\r', '\n']);
        assert(to@ =~= seq!['\n']);
    }
    string_from_chars(&out)
}

} // verus!
