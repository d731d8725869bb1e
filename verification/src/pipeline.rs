//! From a stack description to the lines for the environment file.

use crate::config::Config;
use crate::env_file::{lines_text, EnvWriter, Progress};
use crate::filter::{filter_keys, filtered};
use crate::outputs::{
    declared_pairs, extract_outputs, fails_with, is_readable, ExtractError, StacksReply,
};
use crate::transform::{transform_keys, transformed};
use vstd::prelude::*;

verus! {

/// The lines that a readable reply leads to: its declared pairs, those of
/// them that `only` lets through, renamed with `prefix`, one line each.
pub open spec fn planned_lines(reply: StacksReply, prefix: Seq<char>, only: Seq<char>) -> Seq<
    Seq<char>,
> {
    lines_text(transformed(prefix, filtered(declared_pairs(reply), only)))
}

/// Plans the writing for one reply: reads its outputs, selects, renames and
/// formats them. A reply that cannot be read gives its failure and no writer,
/// so that nothing is written for it.
pub fn plan(reply: StacksReply, config: &Config) -> (r: Result<EnvWriter, ExtractError>)
    ensures
        r is Ok <==> is_readable(reply),
        match r {
            Ok(writer) => writer@ == (Progress {
                lines: planned_lines(reply, config.prefix@, config.only@),
                attempted: 0,
                failed: Seq::empty(),
            }),
            Err(failure) => fails_with(reply, failure),
        },
{
    let declared = match extract_outputs(reply) {
        Ok(declared) => declared,
        Err(failure) => { return Err(failure); },
    };
    let kept = filter_keys(declared, config.only.clone());
    let renamed = transform_keys(config.prefix.clone(), kept);
    Ok(EnvWriter::new(&renamed))
}

} // verus!
