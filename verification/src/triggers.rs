//! Triggers: a compiled pattern, the action it names and the sources it is
//! limited to.

use vstd::prelude::*;
use regex::Regex;
use crate::patterns::{pattern_error, regex_matches, regex_source, PatternError};
use crate::selection::{
    lemma_picked_has_its_place, lemma_picked_keep_their_order, lemma_picked_step,
    lemma_place_has_its_picked, picked_before,
};

verus! {

/// One record of the trigger configuration.
pub struct TriggerDefinition {
    /// A name for diagnostics.
    pub name: Option<String>,
    /// The source of the regular expression.
    pub pattern: String,
    /// The identifier of the action to invoke.
    pub action: String,
    /// The sources the trigger is limited to; `None` for all of them.
    pub scope: Option<Vec<u32>>,
}

/// A trigger that is ready to be matched against lines.
pub struct CompiledTrigger {
    pub name: String,
    pub pattern: Regex,
    pub action: String,
    pub scope: Option<Vec<u32>>,
}

/// A record whose pattern was not compiled.
pub struct RejectedTrigger {
    pub name: String,
    pub pattern: String,
    pub error: PatternError,
}

/// The name under which a record is reported: its own, or the empty one.
pub open spec fn diagnostic_name(name: Option<String>) -> Seq<char> {
    match name {
        Some(text) => text@,
        None => Seq::empty(),
    }
}

impl CompiledTrigger {
    /// The trigger was built from this record and this compiled expression.
    pub open spec fn built_from(self, definition: TriggerDefinition, pattern: Regex) -> bool {
        &&& self.name@ == diagnostic_name(definition.name)
        &&& self.pattern == pattern
        &&& self.action == definition.action
        &&& self.scope == definition.scope
    }

    /// The trigger stems from this record.
    pub open spec fn stems_from(self, definition: TriggerDefinition) -> bool {
        &&& self.built_from(definition, self.pattern)
        &&& regex_source(self.pattern) == definition.pattern@
    }

    /// The trigger applies to lines of this source. A trigger without a scope
    /// applies to every source, also to a file whose name gives no source
    /// number; a scoped one applies to the numbers it lists.
    pub open spec fn in_scope(self, source: Option<u32>) -> bool {
        match self.scope {
            None => true,
            Some(ids) => match source {
                Some(id) => ids@.contains(id),
                None => false,
            },
        }
    }

    /// The trigger fires on this line of this source.
    pub open spec fn fires(self, line: Seq<char>, source: Option<u32>) -> bool {
        regex_matches(self.pattern, line) && self.in_scope(source)
    }

    /// Puts a record and its compiled pattern together.
    pub fn build(definition: TriggerDefinition, pattern: Regex) -> (trigger: CompiledTrigger)
        ensures
            trigger.built_from(definition, pattern),
    {
        let name = match definition.name {
            Some(text) => text,
            None => String::new(),
        };
        CompiledTrigger { name, pattern, action: definition.action, scope: definition.scope }
    }

    /// The source of the trigger's pattern.
    pub fn pattern_text(&self) -> (text: String)
        ensures
            text@ == regex_source(self.pattern),
    {
        String::from_str(self.pattern.as_str())
    }

    /// Whether the trigger applies to lines of this source.
    pub fn applies_to(&self, source: Option<u32>) -> (applies: bool)
        ensures
            applies == self.in_scope(source),
    {
        match &self.scope {
            None => true,
            Some(ids) => match source {
                Some(id) => contains_id(ids, id),
                None => false,
            },
        }
    }

    /// Whether the trigger fires on this line of this source.
    pub fn fires_on(&self, line: &str, source: Option<u32>) -> (fired: bool)
        ensures
            fired == self.fires(line@, source),
    {
        self.pattern.is_match(line) && self.applies_to(source)
    }
}

/// Whether a list of source numbers holds this one.
pub fn contains_id(ids: &Vec<u32>, id: u32) -> (found: bool)
    ensures
        found == ids@.contains(id),
{
    let mut i: usize = 0;
    while i < ids.len()
        invariant
            i <= ids@.len(),
            forall|k: int| 0 <= k < i ==> ids@[k] != id,
        decreases ids@.len() - i,
    {
        if ids[i] == id {
            return true;
        }
        i += 1;
    }
    false
}

/// What compiling a record may give: a trigger that stems from it, or a
/// rejection that names it.
pub open spec fn outcome_of(
    definition: TriggerDefinition,
    outcome: Result<CompiledTrigger, RejectedTrigger>,
) -> bool {
    match outcome {
        Ok(trigger) => trigger.stems_from(definition),
        Err(rejected) => rejected.name@ == diagnostic_name(definition.name) && rejected.pattern
            == definition.pattern,
    }
}

/// Compiles the pattern of one record.
pub fn compile_trigger(definition: TriggerDefinition) -> (outcome: Result<
    CompiledTrigger,
    RejectedTrigger,
>)
    ensures
        outcome_of(definition, outcome),
{
    match Regex::new(definition.pattern.as_str()) {
        Ok(pattern) => Ok(CompiledTrigger::build(definition, pattern)),
        Err(error) => {
            let name = match definition.name {
                Some(text) => text,
                None => String::new(),
            };
            Err(RejectedTrigger { name, pattern: definition.pattern, error: pattern_error(error) })
        },
    }
}

/// The action that a trigger asks for on a line of a source, if it fires.
pub open spec fn action_when_fired(line: Seq<char>, source: Option<u32>) -> spec_fn(
    CompiledTrigger,
) -> Option<Seq<char>> {
    |trigger: CompiledTrigger|
        if trigger.fires(line, source) {
            Some(trigger.action@)
        } else {
            None
        }
}

/// The actions to invoke for a line of a source: one for every trigger that
/// fires, in the order of the triggers. No trigger hides another.
pub open spec fn fired_actions(
    triggers: Seq<CompiledTrigger>,
    line: Seq<char>,
    source: Option<u32>,
) -> Seq<Seq<char>> {
    triggers.filter_map(action_when_fired(line, source))
}

/// Matches a line of a source against every trigger and collects the
/// actions of those that fire.
pub fn matching_actions(triggers: &Vec<CompiledTrigger>, line: &str, source: Option<u32>) -> (actions:
    Vec<String>)
    ensures
        actions@.len() == fired_actions(triggers@, line@, source).len(),
        forall|k: int|
            0 <= k < actions@.len() ==> actions@[k]@ == fired_actions(triggers@, line@, source)[k],
{
    let ghost pick = action_when_fired(line@, source);
    let mut actions: Vec<String> = Vec::new();
    let mut i: usize = 0;
    while i < triggers.len()
        invariant
            i <= triggers@.len(),
            pick == action_when_fired(line@, source),
            actions@.len() == triggers@.take(i as int).filter_map(pick).len(),
            forall|k: int|
                0 <= k < actions@.len() ==> actions@[k]@ == triggers@.take(i as int).filter_map(
                    pick,
                )[k],
        decreases triggers@.len() - i,
    {
        proof {
            lemma_picked_step(triggers@, pick, i as int);
        }
        if triggers[i].fires_on(line, source) {
            actions.push(triggers[i].action.clone());
        }
        i += 1;
    }
    proof {
        assert(triggers@.take(i as int) =~= triggers@);
    }
    actions
}

/// The outcomes of compiling the records, one for each, in their order.
pub open spec fn is_compilation_of(
    definitions: Seq<TriggerDefinition>,
    outcomes: Seq<Result<CompiledTrigger, RejectedTrigger>>,
) -> bool {
    &&& outcomes.len() == definitions.len()
    &&& forall|i: int| 0 <= i < definitions.len() ==> outcome_of(definitions[i], #[trigger] outcomes[i])
}

/// The trigger of an outcome, if the pattern compiled.
pub open spec fn compiled_part(outcome: Result<CompiledTrigger, RejectedTrigger>) -> Option<
    CompiledTrigger,
> {
    match outcome {
        Ok(trigger) => Some(trigger),
        Err(_) => None,
    }
}

/// The rejection of an outcome, if the pattern did not compile.
pub open spec fn rejected_part(outcome: Result<CompiledTrigger, RejectedTrigger>) -> Option<
    RejectedTrigger,
> {
    match outcome {
        Ok(_) => None,
        Err(rejected) => Some(rejected),
    }
}

/// The triggers among the outcomes, in their order.
pub open spec fn compiled_of(outcomes: Seq<Result<CompiledTrigger, RejectedTrigger>>) -> Seq<
    CompiledTrigger,
> {
    outcomes.filter_map(|outcome: Result<CompiledTrigger, RejectedTrigger>| compiled_part(outcome))
}

/// The rejections among the outcomes, in their order.
pub open spec fn rejected_of(outcomes: Seq<Result<CompiledTrigger, RejectedTrigger>>) -> Seq<
    RejectedTrigger,
> {
    outcomes.filter_map(|outcome: Result<CompiledTrigger, RejectedTrigger>| rejected_part(outcome))
}

/// The triggers that are in force, and the records that were left out.
pub struct LoadedTriggers {
    pub triggers: Vec<CompiledTrigger>,
    pub rejected: Vec<RejectedTrigger>,
}

impl LoadedTriggers {
    /// This is what loading the records gives for some outcome of compiling
    /// each pattern: every record whose pattern compiled is a trigger, the
    /// others are rejections, both in the order of the records.
    pub open spec fn is_load_of(self, definitions: Seq<TriggerDefinition>) -> bool {
        exists|outcomes: Seq<Result<CompiledTrigger, RejectedTrigger>>|
            is_compilation_of(definitions, outcomes) && self.keeps(outcomes)
    }

    /// The triggers and the rejections are those of the outcomes.
    pub open spec fn keeps(self, outcomes: Seq<Result<CompiledTrigger, RejectedTrigger>>) -> bool {
        self.triggers@ == compiled_of(outcomes) && self.rejected@ == rejected_of(outcomes)
    }
}

/// Compiles the pattern of every record.
pub fn compile_all(definitions: Vec<TriggerDefinition>) -> (outcomes: Vec<
    Result<CompiledTrigger, RejectedTrigger>,
>)
    ensures
        is_compilation_of(definitions@, outcomes@),
{
    let mut outcomes: Vec<Result<CompiledTrigger, RejectedTrigger>> = Vec::new();
    let ghost all = definitions@;
    for definition in it: definitions.into_iter()
        invariant
            it.seq() == all,
            outcomes@.len() == it.index(),
            forall|i: int| 0 <= i < it.index() ==> outcome_of(all[i], #[trigger] outcomes@[i]),
    {
        outcomes.push(compile_trigger(definition));
    }
    outcomes
}

/// Sorts the outcomes into the triggers that are in force and the records
/// that were left out. A rejection never costs another record its place.
pub fn keep_compiled(outcomes: Vec<Result<CompiledTrigger, RejectedTrigger>>) -> (loaded:
    LoadedTriggers)
    ensures
        loaded.keeps(outcomes@),
{
    let mut triggers: Vec<CompiledTrigger> = Vec::new();
    let mut rejected: Vec<RejectedTrigger> = Vec::new();
    let ghost all = outcomes@;
    let ghost pick_ok = |outcome: Result<CompiledTrigger, RejectedTrigger>| compiled_part(outcome);
    let ghost pick_err = |outcome: Result<CompiledTrigger, RejectedTrigger>| rejected_part(outcome);
    for outcome in it: outcomes.into_iter()
        invariant
            it.seq() == all,
            pick_ok == |outcome: Result<CompiledTrigger, RejectedTrigger>| compiled_part(outcome),
            pick_err == |outcome: Result<CompiledTrigger, RejectedTrigger>| rejected_part(outcome),
            triggers@ == all.take(it.index()).filter_map(pick_ok),
            rejected@ == all.take(it.index()).filter_map(pick_err),
    {
        proof {
            lemma_picked_step(all, pick_ok, it.index());
            lemma_picked_step(all, pick_err, it.index());
        }
        match outcome {
            Ok(trigger) => triggers.push(trigger),
            Err(refusal) => rejected.push(refusal),
        }
    }
    proof {
        assert(all.take(all.len() as int) =~= all);
    }
    LoadedTriggers { triggers, rejected }
}

/// Loads the triggers of a configuration. Every pattern is compiled on its
/// own: a record whose pattern does not compile is left out and reported,
/// and the records around it are loaded as if it were not there.
pub fn load_triggers(definitions: Vec<TriggerDefinition>) -> (loaded: LoadedTriggers)
    ensures
        loaded.is_load_of(definitions@),
        loaded.triggers@.len() + loaded.rejected@.len() == definitions@.len(),
{
    let outcomes = compile_all(definitions);
    proof {
        lemma_every_record_is_accounted_for(outcomes@);
    }
    keep_compiled(outcomes)
}

/// Loads the triggers of a configuration that may be missing. Without a
/// configuration there are no triggers, and nothing is rejected.
pub fn load(config: Option<Vec<TriggerDefinition>>) -> (loaded: LoadedTriggers)
    ensures
        match config {
            Some(definitions) => loaded.is_load_of(definitions@) && loaded.triggers@.len()
                + loaded.rejected@.len() == definitions@.len(),
            None => loaded.triggers@.len() == 0 && loaded.rejected@.len() == 0,
        },
{
    match config {
        Some(definitions) => load_triggers(definitions),
        None => LoadedTriggers { triggers: Vec::new(), rejected: Vec::new() },
    }
}

/// Every outcome is either among the triggers or among the rejections.
pub proof fn lemma_every_record_is_accounted_for(
    outcomes: Seq<Result<CompiledTrigger, RejectedTrigger>>,
)
    ensures
        compiled_of(outcomes).len() + rejected_of(outcomes).len() == outcomes.len(),
    decreases outcomes.len(),
{
    if outcomes.len() > 0 {
        lemma_every_record_is_accounted_for(outcomes.drop_last());
    }
}

/// A record whose pattern compiled is loaded, whatever became of the
/// records around it: its trigger stands among the loaded triggers, behind
/// those of the earlier records that compiled.
pub proof fn lemma_valid_record_is_loaded(
    definitions: Seq<TriggerDefinition>,
    outcomes: Seq<Result<CompiledTrigger, RejectedTrigger>>,
    i: int,
)
    requires
        is_compilation_of(definitions, outcomes),
        0 <= i < definitions.len(),
        outcomes[i] is Ok,
    ensures
        0 <= compiled_of(outcomes.take(i)).len() < compiled_of(outcomes).len(),
        compiled_of(outcomes)[compiled_of(outcomes.take(i)).len() as int] == outcomes[i]->Ok_0,
        compiled_of(outcomes)[compiled_of(outcomes.take(i)).len() as int].stems_from(definitions[i]),
{
    let pick = |outcome: Result<CompiledTrigger, RejectedTrigger>| compiled_part(outcome);
    lemma_picked_has_its_place(outcomes, pick, i);
}

/// Every loaded trigger is that of a record whose pattern compiled: each
/// place among the loaded triggers is the place of such a record, and holds
/// the trigger that stems from it.
pub proof fn lemma_loaded_trigger_has_its_record(
    definitions: Seq<TriggerDefinition>,
    outcomes: Seq<Result<CompiledTrigger, RejectedTrigger>>,
    place: int,
)
    requires
        is_compilation_of(definitions, outcomes),
        0 <= place < compiled_of(outcomes).len(),
    ensures
        exists|i: int|
            {
                &&& 0 <= i < definitions.len()
                &&& outcomes[i] is Ok
                &&& #[trigger] compiled_of(outcomes.take(i)).len() == place
                &&& compiled_of(outcomes)[place] == outcomes[i]->Ok_0
                &&& compiled_of(outcomes)[place].stems_from(definitions[i])
            },
{
    let pick = |outcome: Result<CompiledTrigger, RejectedTrigger>| compiled_part(outcome);
    lemma_place_has_its_picked(outcomes, pick, place);
    let i = choose|i: int|
        0 <= i < outcomes.len() && pick(outcomes[i]) is Some && #[trigger] picked_before(
            outcomes,
            pick,
            i,
        ) == place;
    lemma_picked_has_its_place(outcomes, pick, i);
    assert(compiled_of(outcomes.take(i)).len() == place);
}

/// The place of trigger `i` among the fired actions: the number of triggers
/// before it that fire.
pub open spec fn place_of(
    triggers: Seq<CompiledTrigger>,
    line: Seq<char>,
    source: Option<u32>,
    i: int,
) -> int {
    fired_actions(triggers.take(i), line, source).len() as int
}

/// Every trigger that fires has its action invoked: the action stands among
/// the fired actions, at the trigger's place.
pub proof fn lemma_firing_trigger_is_invoked(
    triggers: Seq<CompiledTrigger>,
    line: Seq<char>,
    source: Option<u32>,
    i: int,
)
    requires
        0 <= i < triggers.len(),
        triggers[i].fires(line, source),
    ensures
        0 <= place_of(triggers, line, source, i) < fired_actions(triggers, line, source).len(),
        fired_actions(triggers, line, source)[place_of(triggers, line, source, i)]
            == triggers[i].action@,
{
    lemma_picked_has_its_place(triggers, action_when_fired(line, source), i);
}

/// Every invocation is that of a trigger that fires: each place among the
/// fired actions is the place of such a trigger, and holds its action.
pub proof fn lemma_invocation_has_its_trigger(
    triggers: Seq<CompiledTrigger>,
    line: Seq<char>,
    source: Option<u32>,
    place: int,
)
    requires
        0 <= place < fired_actions(triggers, line, source).len(),
    ensures
        exists|i: int|
            {
                &&& 0 <= i < triggers.len()
                &&& triggers[i].fires(line, source)
                &&& #[trigger] place_of(triggers, line, source, i) == place
                &&& fired_actions(triggers, line, source)[place] == triggers[i].action@
            },
{
    let pick = action_when_fired(line, source);
    lemma_place_has_its_picked(triggers, pick, place);
    let i = choose|i: int|
        0 <= i < triggers.len() && pick(triggers[i]) is Some && #[trigger] picked_before(
            triggers,
            pick,
            i,
        ) == place;
    lemma_picked_has_its_place(triggers, pick, i);
    assert(place_of(triggers, line, source, i) == place);
}

/// Two triggers that fire on the same line are both invoked, each at its
/// own place and in the order of the triggers. With the two facts above,
/// the triggers that fire and the invocations match one to one.
pub proof fn lemma_fan_out(
    triggers: Seq<CompiledTrigger>,
    line: Seq<char>,
    source: Option<u32>,
    i: int,
    j: int,
)
    requires
        0 <= i < j < triggers.len(),
        triggers[i].fires(line, source),
        triggers[j].fires(line, source),
    ensures
        ({
            let all = fired_actions(triggers, line, source);
            let first = place_of(triggers, line, source, i);
            let second = place_of(triggers, line, source, j);
            &&& 0 <= first < second < all.len()
            &&& all[first] == triggers[i].action@
            &&& all[second] == triggers[j].action@
        }),
{
    let pick = action_when_fired(line, source);
    lemma_picked_has_its_place(triggers, pick, i);
    lemma_picked_has_its_place(triggers, pick, j);
    lemma_picked_keep_their_order(triggers, pick, i, j);
}

/// A trigger without a scope fires on a matching line whatever the source.
pub proof fn lemma_unscoped_fires_everywhere(
    trigger: CompiledTrigger,
    line: Seq<char>,
    source: Option<u32>,
)
    requires
        trigger.scope is None,
    ensures
        trigger.fires(line, source) == regex_matches(trigger.pattern, line),
{
}

/// A scoped trigger does not fire for a source that its scope does not list,
/// nor for a file without a source number.
pub proof fn lemma_scoped_stays_in_scope(
    trigger: CompiledTrigger,
    line: Seq<char>,
    source: Option<u32>,
)
    requires
        trigger.scope is Some,
        source is None || !trigger.scope->Some_0@.contains(source->Some_0),
    ensures
        !trigger.fires(line, source),
{
}

} // verus!
