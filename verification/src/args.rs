//! Argument-list normalization for a command-line front-end.
//!
//! A bare invocation, or one that leads with flags instead of a
//! subcommand, is routed to the interactive screen: `tui` is spliced in
//! as the subcommand. Recognized subcommands and the top-level help and
//! version flags pass through untouched.

use vstd::prelude::*;
use vstd::string::*;

verus! {

/// Exact character-wise equality of two string slices.
pub fn str_eq(a: &str, b: &str) -> (r: bool)
    ensures
        r == (a@ == b@),
{
    let na = a.unicode_len();
    let nb = b.unicode_len();
    if na != nb {
        return false;
    }
    let mut i: usize = 0;
    while i < na
        invariant
            i <= na,
            na == a@.len() && na == b@.len(),
            forall|j: int| 0 <= j < i ==> a@[j] == b@[j],
        decreases na - i,
    {
        if a.get_char(i) != b.get_char(i) {
            return false;
        }
        i = i + 1;
    }
    proof {
        assert(a@ =~= b@);
    }
    true
}

/// The first argument word leaves the list as it stands: a recognized
/// subcommand, a top-level help or version flag, or anything that is not
/// a flag at all.
pub open spec fn keeps_args(a: Seq<char>) -> bool {
    ||| a == "-h"@
    ||| a == "--help"@
    ||| a == "-V"@
    ||| a == "--version"@
    ||| a == "help"@
    ||| a == "fit"@
    ||| a == "rank"@
    ||| a == "plot"@
    ||| a == "tui"@
    ||| a.len() == 0
    ||| a[0] != '-'
}

/// Rewrite an argument list so a bare or flags-only invocation becomes
/// an invocation of the interactive screen.
pub fn rewrite_args(argv: Vec<String>) -> (r: Vec<String>)
    ensures
        argv@.len() <= 1 ==> (r@.len() == argv@.len() + 1 && (forall|i: int|
            0 <= i < argv@.len() ==> r@[i] == argv@[i]) && (r@[argv@.len() as int])@ == "tui"@),
        argv@.len() >= 2 && keeps_args((argv@[1])@) ==> r@ == argv@,
        argv@.len() >= 2 && !keeps_args((argv@[1])@) ==> (r@.len() == argv@.len() + 1 && r@[0]
            == argv@[0] && (r@[1])@ == "tui"@ && (forall|i: int|
            2 <= i < r@.len() ==> r@[i] == argv@[i - 1])),
{
    let mut argv = argv;
    if argv.len() <= 1 {
        argv.push(String::from_str("tui"));
        return argv;
    }

    let keep = {
        let a1 = argv[1].as_str();
        str_eq(a1, "-h") || str_eq(a1, "--help") || str_eq(a1, "-V") || str_eq(a1, "--version")
            || str_eq(a1, "help") || str_eq(a1, "fit") || str_eq(a1, "rank") || str_eq(a1, "plot")
            || str_eq(a1, "tui") || a1.unicode_len() == 0 || a1.get_char(0) != '-'
    };
    if !keep {
        argv.insert(1, String::from_str("tui"));
    }
    argv
}

} // verus!
