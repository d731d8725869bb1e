//! What a stack description holds, and the output pairs read from it.

use vstd::prelude::*;

verus! {

/// One declared output as the service reports it: either field may be absent.
#[derive(Debug)]
pub struct OutputRecord {
    pub key: Option<String>,
    pub value: Option<String>,
}

/// One described stack: its outputs, where it reports any.
#[derive(Debug)]
pub struct StackRecord {
    pub outputs: Option<Vec<OutputRecord>>,
}

/// The answer to a request to describe stacks.
#[derive(Debug)]
pub struct StacksReply {
    pub stacks: Option<Vec<StackRecord>>,
}

/// Why no output pairs can be read from a reply.
#[derive(Debug, Clone, Copy, PartialEq, Eq, Structural)]
pub enum ExtractError {
    /// The reply describes no stack.
    NoStacks,
    /// The first stack reports no outputs.
    NoOutputs,
    /// The output at `index` has no key; those before it are complete.
    MissingKey { index: usize },
    /// The output at `index` has a key and no value; those before it are complete.
    MissingValue { index: usize },
}

/// Whether the reply describes at least one stack.
pub open spec fn has_stack(reply: StacksReply) -> bool {
    reply.stacks is Some && reply.stacks->0@.len() > 0
}

/// Whether the first stack of the reply reports outputs.
pub open spec fn has_outputs(reply: StacksReply) -> bool {
    has_stack(reply) && reply.stacks->0@[0].outputs is Some
}

/// The outputs that the first stack of the reply reports.
pub open spec fn reported(reply: StacksReply) -> Seq<OutputRecord>
    recommends
        has_outputs(reply),
{
    reply.stacks->0@[0].outputs->0@
}

/// Whether an output has both its key and its value.
pub open spec fn is_complete(output: OutputRecord) -> bool {
    output.key is Some && output.value is Some
}

/// Whether all the outputs before `index` are complete.
pub open spec fn complete_before(outputs: Seq<OutputRecord>, index: int) -> bool {
    forall|j: int| 0 <= j < index ==> is_complete(#[trigger] outputs[j])
}

/// Whether output pairs can be read from the reply: it has a first stack,
/// that stack reports outputs, and each of them is complete.
pub open spec fn is_readable(reply: StacksReply) -> bool {
    has_outputs(reply) && complete_before(reported(reply), reported(reply).len() as int)
}

/// The output pairs of a readable reply: those of its first stack, in the
/// order reported.
pub open spec fn declared_pairs(reply: StacksReply) -> Seq<(Seq<char>, Seq<char>)>
    recommends
        is_readable(reply),
{
    reported(reply).map_values(|output: OutputRecord| (output.key->0@, output.value->0@))
}

/// Whether `failure` names what is wrong with the reply: the first thing
/// found wanting, reading stacks, then outputs, then each output in turn,
/// its key before its value.
pub open spec fn fails_with(reply: StacksReply, failure: ExtractError) -> bool {
    match failure {
        ExtractError::NoStacks => !has_stack(reply),
        ExtractError::NoOutputs => has_stack(reply) && !has_outputs(reply),
        ExtractError::MissingKey { index } => {
            &&& has_outputs(reply)
            &&& index < reported(reply).len()
            &&& complete_before(reported(reply), index as int)
            &&& reported(reply)[index as int].key is None
        },
        ExtractError::MissingValue { index } => {
            &&& has_outputs(reply)
            &&& index < reported(reply).len()
            &&& complete_before(reported(reply), index as int)
            &&& reported(reply)[index as int].key is Some
            &&& reported(reply)[index as int].value is None
        },
    }
}

/// A readable reply fails with nothing, and a reply fails with one thing at most.
pub proof fn lemma_failure_is_unique(reply: StacksReply, first: ExtractError, second: ExtractError)
    requires
        fails_with(reply, first),
    ensures
        !is_readable(reply),
        fails_with(reply, second) ==> first == second,
{
    let outputs = reported(reply);
    match first {
        ExtractError::MissingKey { index } => {
            assert(!is_complete(outputs[index as int]));
        },
        ExtractError::MissingValue { index } => {
            assert(!is_complete(outputs[index as int]));
        },
        _ => {},
    }
    if fails_with(reply, second) {
        match second {
            ExtractError::MissingKey { index } => {
                assert(!is_complete(outputs[index as int]));
            },
            ExtractError::MissingValue { index } => {
                assert(!is_complete(outputs[index as int]));
            },
            _ => {},
        }
    }
}

/// Reads the output pairs of the first stack of the reply, or says what is
/// wrong with the reply.
pub fn extract_outputs(reply: StacksReply) -> (r: Result<Vec<(String, String)>, ExtractError>)
    ensures
        r is Ok <==> is_readable(reply),
        match r {
            Ok(pairs) => pairs.deep_view() == declared_pairs(reply),
            Err(failure) => fails_with(reply, failure),
        },
{
    let mut stacks = match reply.stacks {
        Some(stacks) => stacks,
        None => { return Err(ExtractError::NoStacks); },
    };
    if stacks.len() == 0 {
        return Err(ExtractError::NoStacks);
    }
    let first = stacks.remove(0);
    let outputs = match first.outputs {
        Some(outputs) => outputs,
        None => { return Err(ExtractError::NoOutputs); },
    };
    let ghost all = outputs@;
    assert(all.len() == outputs.len());
    let mut pairs: Vec<(String, String)> = Vec::new();
    let mut index: usize = 0;
    for output in it: outputs
        invariant
            it.seq() == all,
            all == reported(reply),
            has_outputs(reply),
            index == it.index(),
            all.len() <= usize::MAX,
            complete_before(all, index as int),
            pairs.deep_view() =~= all.take(index as int).map_values(
                |output: OutputRecord| (output.key->0@, output.value->0@),
            ),
    {
        let ghost before = pairs.deep_view();
        let OutputRecord { key, value } = output;
        let key = match key {
            Some(key) => key,
            None => { return Err(ExtractError::MissingKey { index }); },
        };
        let value = match value {
            Some(value) => value,
            None => { return Err(ExtractError::MissingValue { index }); },
        };
        pairs.push((key, value));
        proof {
            assert(all.take(index as int + 1) =~= all.take(index as int).push(output));
            assert(pairs.deep_view() =~= before.push((key@, value@)));
        }
        index += 1;
    }
    assert(all.take(all.len() as int) =~= all);
    Ok(pairs)
}

} // verus!
