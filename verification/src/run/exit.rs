//! Exit codes. This table is the tool's public interface.

use vstd::prelude::*;

verus! {

/// The page called `resolve(v)`; stdout carries the payload.
pub const RESOLVE: i32 = 0;

/// The page called `reject(e)`; stderr carries the message.
pub const REJECT: i32 = 1;

/// The user closed the window before the page settled.
pub const CLOSED: i32 = 2;

/// `--timeout-ms` elapsed before the page settled.
pub const TIMEOUT: i32 = 3;

/// Bad usage (no input, unreadable stdin).
pub const USAGE: i32 = 64;

/// Every outcome has its own exit code.
pub proof fn lemma_exit_codes_distinct()
    ensures
        RESOLVE != REJECT && RESOLVE != CLOSED && RESOLVE != TIMEOUT && RESOLVE != USAGE,
        REJECT != CLOSED && REJECT != TIMEOUT && REJECT != USAGE,
        CLOSED != TIMEOUT && CLOSED != USAGE,
        TIMEOUT != USAGE,
{
}

} // verus!
