//! Module lifecycle: the exact command lines that load and unload the kernel
//! loopback module, and the interpretation of the child's exit status. The
//! privileged child processes themselves run outside the library.

use vstd::prelude::*;
use vstd::string::StringSliceAdditionalSpecFns;

use crate::errors::RecorderError;
use crate::text::{bytes_of_str, contains_seq, seq_views};

verus! {

/// The privileged command line that loads the loopback module with exclusive
/// capture and the fixed card label discovery scans for.
pub open spec fn module_load_command_spec() -> Seq<Seq<u8>> {
    seq![
        "sudo".spec_bytes(),
        "modprobe".spec_bytes(),
        "v4l2loopback".spec_bytes(),
        "exclusive_caps=1".spec_bytes(),
        "card_label=VirtualVideoDevice".spec_bytes(),
    ]
}

/// The privileged command line that removes the loopback module.
pub open spec fn module_unload_command_spec() -> Seq<Seq<u8>> {
    seq!["sudo".spec_bytes(), "rmmod".spec_bytes(), "v4l2loopback".spec_bytes()]
}

/// Builds the module-loading command line.
pub fn module_load_command() -> (r: Vec<Vec<u8>>)
    ensures
        seq_views(r@) == module_load_command_spec(),
{
    let mut r: Vec<Vec<u8>> = Vec::new();
    r.push(bytes_of_str("sudo"));
    r.push(bytes_of_str("modprobe"));
    r.push(bytes_of_str("v4l2loopback"));
    r.push(bytes_of_str("exclusive_caps=1"));
    r.push(bytes_of_str("card_label=VirtualVideoDevice"));
    proof {
        assert(seq_views(r@) =~= module_load_command_spec());
    }
    r
}

/// Builds the module-removal command line.
pub fn module_unload_command() -> (r: Vec<Vec<u8>>)
    ensures
        seq_views(r@) == module_unload_command_spec(),
{
    let mut r: Vec<Vec<u8>> = Vec::new();
    r.push(bytes_of_str("sudo"));
    r.push(bytes_of_str("rmmod"));
    r.push(bytes_of_str("v4l2loopback"));
    proof {
        assert(seq_views(r@) =~= module_unload_command_spec());
    }
    r
}

/// How a module-load child's exit status is reported: success as is, and a
/// non-zero exit as a load failure carrying that child's own exit code.
pub open spec fn load_outcome(success: bool, exit_code: Option<i32>) -> Result<(), RecorderError> {
    if success {
        Ok(())
    } else {
        Err(RecorderError::ModuleLoadFailure { exit_code })
    }
}

/// How a module-removal child's exit status is reported.
pub open spec fn unload_outcome(success: bool, exit_code: Option<i32>) -> Result<
    (),
    RecorderError,
> {
    if success {
        Ok(())
    } else {
        Err(RecorderError::ModuleUnloadFailure { exit_code })
    }
}

/// Interprets the exit status of one module-load invocation.
pub fn interpret_load_exit(success: bool, exit_code: Option<i32>) -> (r: Result<
    (),
    RecorderError,
>)
    ensures
        r == load_outcome(success, exit_code),
        r is Ok <==> success,
{
    if success {
        Ok(())
    } else {
        Err(RecorderError::ModuleLoadFailure { exit_code })
    }
}

/// Interprets the exit status of one module-removal invocation.
pub fn interpret_unload_exit(success: bool, exit_code: Option<i32>) -> (r: Result<
    (),
    RecorderError,
>)
    ensures
        r == unload_outcome(success, exit_code),
        r is Ok <==> success,
{
    if success {
        Ok(())
    } else {
        Err(RecorderError::ModuleUnloadFailure { exit_code })
    }
}

/// The card label baked into the load command mentions exactly the label that
/// device discovery scans the listing blocks for: the block `load` creates is
/// one that `discover` selects.
pub proof fn lemma_load_label_matches_discovery()
    ensures
        crate::discovery::block_matches(module_load_command_spec()[4]),
{
    reveal_strlit("card_label=VirtualVideoDevice");
    reveal_strlit("VirtualVideoDevice");
    assert(vstd::utf8::is_ascii_chars("card_label=VirtualVideoDevice"@));
    assert(vstd::utf8::is_ascii_chars("VirtualVideoDevice"@));
    vstd::utf8::is_ascii_chars_encode_utf8("card_label=VirtualVideoDevice"@);
    vstd::utf8::is_ascii_chars_encode_utf8("VirtualVideoDevice"@);
    let long = "card_label=VirtualVideoDevice".spec_bytes();
    let label = "VirtualVideoDevice".spec_bytes();
    assert(long.subrange(11, 29) =~= label);
    assert(contains_seq(long, label)) by {
        assert(long.subrange(11, 11 + label.len() as int) == label);
    }
}

/// Loading the module twice without an intervening unload is not treated
/// specially: the outcome reported for the second invocation is determined by
/// that invocation's own exit status alone — whatever exit code the second
/// child produced is surfaced unmasked, no matter how the first one ended.
pub proof fn lemma_second_load_not_masked(
    first_success: bool,
    first_exit: Option<i32>,
    second_success: bool,
    second_exit: Option<i32>,
)
    ensures
        second_success ==> load_outcome(second_success, second_exit) == Result::<
            (),
            RecorderError,
        >::Ok(()),
        !second_success ==> load_outcome(second_success, second_exit) == Result::<
            (),
            RecorderError,
        >::Err(RecorderError::ModuleLoadFailure { exit_code: second_exit }),
{
}

} // verus!
