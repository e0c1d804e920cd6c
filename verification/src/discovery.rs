//! Device discovery: parse the device-listing text for the block created by
//! the loopback module, extract its device path, and drive a bounded retry
//! budget around repeated listings. The listing child process itself runs
//! outside the library; every listing output is handed in as bytes.

use vstd::prelude::*;
use vstd::string::StringSliceAdditionalSpecFns;

use crate::text::{
    bytes_of_str, contains_bytes, contains_seq, last_token, last_token_spec, seq_views,
    split_blocks, split_on_blank_lines,
};

verus! {

/// The card label the loopback module is loaded with; discovery looks for the
/// listing block that mentions it.
pub open spec fn label_bytes() -> Seq<u8> {
    "VirtualVideoDevice".spec_bytes()
}

/// The prefix of the recorder's device-file argument.
pub open spec fn file_prefix() -> Seq<u8> {
    "--file=".spec_bytes()
}

/// A listing block belongs to the loopback device when it mentions the label.
pub open spec fn block_matches(b: Seq<u8>) -> bool {
    contains_seq(b, label_bytes())
}

/// Index of the first matching block, or -1 when none matches.
pub open spec fn first_match_index(bs: Seq<Seq<u8>>) -> int
    decreases bs.len(),
{
    if bs.len() == 0 {
        -1
    } else if block_matches(bs[0]) {
        0
    } else {
        let r = first_match_index(bs.skip(1));
        if r < 0 {
            -1
        } else {
            r + 1
        }
    }
}

pub proof fn lemma_first_match_index(bs: Seq<Seq<u8>>)
    ensures
        first_match_index(bs) == -1 || (0 <= first_match_index(bs) < bs.len()),
        first_match_index(bs) == -1 ==> forall|m: int|
            0 <= m < bs.len() ==> !#[trigger] block_matches(bs[m]),
        first_match_index(bs) >= 0 ==> block_matches(bs[first_match_index(bs)]),
        first_match_index(bs) >= 0 ==> forall|m: int|
            0 <= m < first_match_index(bs) ==> !#[trigger] block_matches(bs[m]),
    decreases bs.len(),
{
    if bs.len() == 0 {
    } else if block_matches(bs[0]) {
    } else {
        lemma_first_match_index(bs.skip(1));
        let r = first_match_index(bs.skip(1));
        if r < 0 {
            assert forall|m: int| 0 <= m < bs.len() implies !#[trigger] block_matches(bs[m]) by {
                if m > 0 {
                    assert(bs[m] == bs.skip(1)[m - 1]);
                    assert(!block_matches(bs.skip(1)[m - 1]));
                }
            }
        } else {
            assert(first_match_index(bs) == r + 1);
            assert(bs[r + 1] == bs.skip(1)[r]);
            assert forall|m: int| 0 <= m < first_match_index(bs) implies !#[trigger] block_matches(
                bs[m],
            ) by {
                if m > 0 {
                    assert(bs[m] == bs.skip(1)[m - 1]);
                    assert(!block_matches(bs.skip(1)[m - 1]));
                }
            }
        }
    }
}

/// The index the recursion settles on is exactly the first match.
pub proof fn lemma_first_match_index_is(bs: Seq<Seq<u8>>, i: int)
    requires
        0 <= i < bs.len(),
        block_matches(bs[i]),
        forall|m: int| 0 <= m < i ==> !#[trigger] block_matches(bs[m]),
    ensures
        first_match_index(bs) == i,
{
    lemma_first_match_index(bs);
}

/// What one listing output yields: the recorder's device-file argument built
/// from the first matching block, or nothing when no block mentions the label.
pub open spec fn parse_listing(s: Seq<u8>) -> Option<Seq<u8>> {
    let bs = split_blocks(s);
    let i = first_match_index(bs);
    if i < 0 {
        None
    } else {
        Some(file_prefix() + last_token_spec(bs[i]))
    }
}

/// An argument the recorder can take: it starts with `--file=`.
pub open spec fn well_formed_file_argument(a: Seq<u8>) -> bool {
    a.len() >= file_prefix().len() && a.subrange(0, file_prefix().len() as int) == file_prefix()
}

pub proof fn lemma_parse_listing_well_formed(s: Seq<u8>)
    ensures
        parse_listing(s) matches Some(arg) ==> well_formed_file_argument(arg),
{
    if parse_listing(s) is Some {
        let bs = split_blocks(s);
        let i = first_match_index(bs);
        let arg = file_prefix() + last_token_spec(bs[i]);
        assert(arg.subrange(0, file_prefix().len() as int) =~= file_prefix());
    }
}

/// Discovery selects the first block (in listing order) that mentions the
/// label, never a later one, and builds the argument from that block alone.
pub proof fn lemma_selects_first_matching_block(s: Seq<u8>)
    requires
        exists|i: int|
            0 <= i < split_blocks(s).len() && #[trigger] block_matches(split_blocks(s)[i]),
    ensures
        ({
            let bs = split_blocks(s);
            let k = first_match_index(bs);
            &&& 0 <= k < bs.len()
            &&& block_matches(bs[k])
            &&& (forall|m: int| 0 <= m < k ==> !#[trigger] block_matches(bs[m]))
            &&& parse_listing(s) == Some(file_prefix() + last_token_spec(bs[k]))
        }),
{
    let bs = split_blocks(s);
    lemma_first_match_index(bs);
    let i = choose|i: int| 0 <= i < bs.len() && #[trigger] block_matches(bs[i]);
    assert(first_match_index(bs) != -1);
}

/// Scans one listing output for the loopback device and, when its block is
/// found, returns the ready-to-use `--file=<path>` argument.
pub fn find_device_argument(listing: &[u8]) -> (r: Option<Vec<u8>>)
    ensures
        (match r {
            Some(v) => parse_listing(listing@) == Some(v@),
            None => parse_listing(listing@) is None,
        }),
{
    let blocks = split_on_blank_lines(listing);
    let label = bytes_of_str("VirtualVideoDevice");
    let ghost bs = split_blocks(listing@);
    let mut i: usize = 0;
    while i < blocks.len()
        invariant
            seq_views(blocks@) == bs,
            bs == split_blocks(listing@),
            label@ == label_bytes(),
            i <= blocks.len(),
            forall|m: int| 0 <= m < i ==> !#[trigger] block_matches(bs[m]),
        decreases blocks.len() - i,
    {
        assert(blocks@[i as int]@ == bs[i as int]);
        if contains_bytes(blocks[i].as_slice(), label.as_slice()) {
            proof {
                lemma_first_match_index_is(bs, i as int);
            }
            let token = last_token(blocks[i].as_slice());
            let mut arg = bytes_of_str("--file=");
            let mut tail = token;
            arg.append(&mut tail);
            return Some(arg);
        }
        i += 1;
    }
    proof {
        lemma_first_match_index(bs);
        if first_match_index(bs) >= 0 {
            assert(block_matches(bs[first_match_index(bs)]));
            assert(false);
        }
    }
    None
}

/// The command line that enumerates video devices.
pub open spec fn listing_command_spec() -> Seq<Seq<u8>> {
    seq!["v4l2-ctl".spec_bytes(), "--list-devices".spec_bytes()]
}

/// Builds the device-listing command line.
pub fn listing_command() -> (r: Vec<Vec<u8>>)
    ensures
        seq_views(r@) == listing_command_spec(),
{
    let mut r: Vec<Vec<u8>> = Vec::new();
    r.push(bytes_of_str("v4l2-ctl"));
    r.push(bytes_of_str("--list-devices"));
    proof {
        assert(seq_views(r@) =~= listing_command_spec());
    }
    r
}

/// Where the retry loop stands: still searching with a remaining budget,
/// finished with the recorder argument, or out of attempts.
pub enum DiscoveryStatus {
    Searching { remaining: usize },
    Found { argument: Vec<u8> },
    TimedOut,
}

/// Starts discovery with the given attempt budget.
pub fn discovery_begin(max_attempts: usize) -> (r: DiscoveryStatus)
    ensures
        max_attempts == 0 ==> r is TimedOut,
        max_attempts > 0 ==> r == (DiscoveryStatus::Searching { remaining: max_attempts }),
{
    if max_attempts == 0 {
        DiscoveryStatus::TimedOut
    } else {
        DiscoveryStatus::Searching { remaining: max_attempts }
    }
}

/// Consumes one listing output and one unit of the attempt budget: success
/// ends the search, otherwise the budget shrinks until it runs out.
pub fn discovery_step(remaining: usize, listing: &[u8]) -> (r: DiscoveryStatus)
    requires
        remaining >= 1,
    ensures
        (match parse_listing(listing@) {
            Some(arg) => r matches DiscoveryStatus::Found { argument } && argument@ == arg,
            None => if remaining == 1 {
                r is TimedOut
            } else {
                r == (DiscoveryStatus::Searching { remaining: (remaining - 1) as usize })
            },
        }),
{
    match find_device_argument(listing) {
        Some(argument) => DiscoveryStatus::Found { argument },
        None => {
            if remaining == 1 {
                DiscoveryStatus::TimedOut
            } else {
                DiscoveryStatus::Searching { remaining: remaining - 1 }
            }
        },
    }
}

/// The device argument the recording step receives: the discovered one, or
/// the empty string when discovery timed out — the timeout deliberately does
/// not stop the flow, so the recorder is then invoked with an empty argument.
pub fn device_argument_or_empty(status: DiscoveryStatus) -> (r: Vec<u8>)
    ensures
        (match status {
            DiscoveryStatus::Found { argument } => r@ == argument@,
            _ => r@ == Seq::<u8>::empty(),
        }),
{
    match status {
        DiscoveryStatus::Found { argument } => argument,
        _ => Vec::new(),
    }
}

/// The result of running discovery against a stream of listing outputs with
/// an attempt budget of `n`: the argument from the first output that parses,
/// or nothing when the budget runs out first.
pub open spec fn discovery_result(outputs: Seq<Seq<u8>>, n: nat) -> Option<Seq<u8>>
    decreases n,
{
    if n == 0 || outputs.len() == 0 {
        None
    } else {
        match parse_listing(outputs[0]) {
            Some(arg) => Some(arg),
            None => discovery_result(outputs.skip(1), (n - 1) as nat),
        }
    }
}

/// How many listing invocations that run consumes.
pub open spec fn attempts_used(outputs: Seq<Seq<u8>>, n: nat) -> nat
    decreases n,
{
    if n == 0 || outputs.len() == 0 {
        0
    } else if parse_listing(outputs[0]) is Some {
        1
    } else {
        1 + attempts_used(outputs.skip(1), (n - 1) as nat)
    }
}

/// For every attempt budget `n > 0`: discovery either returns a well-formed
/// `--file=...` argument after at most `n` listing invocations — the argument
/// coming from the first output that parses, all earlier ones failing — or
/// yields nothing (a timeout) after exactly `n` invocations, every one of
/// which failed to parse.
pub proof fn lemma_discovery_bounded(outputs: Seq<Seq<u8>>, n: nat)
    requires
        1 <= n <= outputs.len(),
    ensures
        1 <= attempts_used(outputs, n) <= n,
        discovery_result(outputs, n) matches Some(arg) ==> {
            let k = attempts_used(outputs, n);
            &&& well_formed_file_argument(arg)
            &&& parse_listing(outputs[k - 1]) == Some(arg)
            &&& (forall|j: int| 0 <= j < k - 1 ==> #[trigger] parse_listing(outputs[j]) is None)
        },
        discovery_result(outputs, n) is None ==> attempts_used(outputs, n) == n && (forall|j: int|
            0 <= j < n ==> #[trigger] parse_listing(outputs[j]) is None),
    decreases n,
{
    lemma_parse_listing_well_formed(outputs[0]);
    if parse_listing(outputs[0]) is Some {
    } else if n == 1 {
    } else {
        lemma_discovery_bounded(outputs.skip(1), (n - 1) as nat);
        assert(forall|j: int| 0 <= j < outputs.skip(1).len() ==> outputs.skip(1)[j] == outputs[j
            + 1]);
        if discovery_result(outputs, n) is Some {
            let k = attempts_used(outputs, n);
            let k1 = attempts_used(outputs.skip(1), (n - 1) as nat);
            assert(k == 1 + k1);
            assert(parse_listing(outputs.skip(1)[k1 - 1]) == Some(
                discovery_result(outputs.skip(1), (n - 1) as nat)->0,
            ));
            assert(forall|j: int|
                1 <= j < k - 1 ==> #[trigger] parse_listing(outputs[j]) == parse_listing(
                    outputs.skip(1)[j - 1],
                ));
        } else {
            assert(forall|j: int|
                1 <= j < n ==> #[trigger] parse_listing(outputs[j]) == parse_listing(
                    outputs.skip(1)[j - 1],
                ));
        }
    }
}

} // verus!
