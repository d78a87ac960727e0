//! What holds of the registry table and of dispatch, for all inputs.
use crate::registries::menu_registry::{MenuDefinition, MenuTable};
use crate::registries::{dispatched, CommandView};
use vstd::prelude::*;

verus! {

/// Registering under an id keeps the table well formed, as long as the
/// ordinals fit the machine.
pub proof fn lemma_install_keeps_wf(table: MenuTable, id: Seq<char>, definition: MenuDefinition)
    requires
        table.wf(),
        table.definitions.len() < usize::MAX,
    ensures
        table.install(id, definition).wf(),
        table.install(id, definition).ids.contains_key(id),
        table.install(id, definition).definitions[table.install(id, definition).ids[id] as int]
            == definition,
{
}

/// Registering an id twice: it has the same ordinal after both, the table
/// has not grown by the second, and that ordinal holds the second definition.
pub proof fn lemma_reinstall_keeps_ordinal(
    table: MenuTable,
    id: Seq<char>,
    first: MenuDefinition,
    second: MenuDefinition,
)
    requires
        table.wf(),
        table.definitions.len() < usize::MAX,
    ensures
        ({
            let once = table.install(id, first);
            let twice = once.install(id, second);
            &&& once.ids.contains_key(id)
            &&& twice.ids == once.ids
            &&& twice.definitions.len() == once.definitions.len()
            &&& twice.definitions[twice.ids[id] as int] == second
        }),
{
}

/// Registering under one id leaves every other id at its ordinal and with
/// its definition.
pub proof fn lemma_install_keeps_others(
    table: MenuTable,
    id: Seq<char>,
    definition: MenuDefinition,
    other: Seq<char>,
)
    requires
        table.wf(),
        table.definitions.len() < usize::MAX,
        other != id,
    ensures
        table.install(id, definition).ids.contains_key(other) == table.ids.contains_key(other),
        table.ids.contains_key(other) ==> table.install(id, definition).ids[other] == table.ids[other]
            && table.install(id, definition).definitions[table.ids[other] as int]
            == table.definitions[table.ids[other] as int],
{
}

/// Dispatch is first in, first out: the last command acts on the table that
/// the commands before it left. Where it failed, that table stays as it is;
/// where it gave a definition, the definition is registered under its id.
pub proof fn lemma_dispatch_in_order(
    commands: Seq<CommandView>,
    outcomes: Seq<Option<MenuDefinition>>,
    id: Seq<char>,
    outcome: Option<MenuDefinition>,
)
    requires
        commands.len() == outcomes.len(),
    ensures
        outcome is None ==> dispatched(commands.push(CommandView::RegisterMenu(id)), outcomes.push(outcome))
            == dispatched(commands, outcomes),
        outcome is Some ==> dispatched(commands.push(CommandView::RegisterMenu(id)), outcomes.push(outcome))
            == dispatched(commands, outcomes).install(id, outcome->0),
{
    assert(commands.push(CommandView::RegisterMenu(id)).drop_last() =~= commands);
    assert(outcomes.push(outcome).drop_last() =~= outcomes);
}

/// The table that a dispatch leaves is well formed and holds at most one
/// definition for each command.
pub proof fn lemma_dispatched_wf(commands: Seq<CommandView>, outcomes: Seq<Option<MenuDefinition>>)
    requires
        commands.len() == outcomes.len(),
        commands.len() <= usize::MAX,
    ensures
        dispatched(commands, outcomes).wf(),
        dispatched(commands, outcomes).definitions.len() <= commands.len(),
    decreases commands.len(),
{
    if commands.len() > 0 {
        lemma_dispatched_wf(commands.drop_last(), outcomes.drop_last());
    }
}

/// A failed command does not undo an earlier one: an id that some command
/// registered with success is in the final table, whatever became of the
/// commands after it.
pub proof fn lemma_registered_id_stays(
    commands: Seq<CommandView>,
    outcomes: Seq<Option<MenuDefinition>>,
    i: int,
)
    requires
        commands.len() == outcomes.len(),
        commands.len() <= usize::MAX,
        0 <= i < commands.len(),
        outcomes[i] is Some,
    ensures
        dispatched(commands, outcomes).ids.contains_key(commands[i]->RegisterMenu_0),
    decreases commands.len(),
{
    lemma_dispatched_wf(commands.drop_last(), outcomes.drop_last());
    if i < commands.len() - 1 {
        lemma_registered_id_stays(commands.drop_last(), outcomes.drop_last(), i);
    }
}

/// An id is in the final table only if some command registered it with
/// success: where every command for an id failed, the id is absent.
pub proof fn lemma_failed_id_is_absent(
    commands: Seq<CommandView>,
    outcomes: Seq<Option<MenuDefinition>>,
    id: Seq<char>,
)
    requires
        commands.len() == outcomes.len(),
        forall|i: int|
            0 <= i < commands.len() && commands[i] == CommandView::RegisterMenu(id) ==> (#[trigger] outcomes[i]) is None,
    ensures
        !dispatched(commands, outcomes).ids.contains_key(id),
    decreases commands.len(),
{
    if commands.len() > 0 {
        lemma_failed_id_is_absent(commands.drop_last(), outcomes.drop_last(), id);
    }
}

/// The first id to be registered with success gets ordinal 0.
pub proof fn lemma_first_success_gets_ordinal_zero(
    commands: Seq<CommandView>,
    outcomes: Seq<Option<MenuDefinition>>,
    i: int,
)
    requires
        commands.len() == outcomes.len(),
        commands.len() <= usize::MAX,
        0 <= i < commands.len(),
        outcomes[i] is Some,
        forall|j: int| 0 <= j < i ==> (#[trigger] outcomes[j]) is None,
    ensures
        dispatched(commands, outcomes).ids[commands[i]->RegisterMenu_0] == 0,
    decreases commands.len(),
{
    let id = commands[i]->RegisterMenu_0;
    lemma_dispatched_wf(commands.drop_last(), outcomes.drop_last());
    if i < commands.len() - 1 {
        lemma_first_success_gets_ordinal_zero(commands.drop_last(), outcomes.drop_last(), i);
        lemma_registered_id_stays(commands.drop_last(), outcomes.drop_last(), i);
    } else {
        lemma_nothing_registered(commands.drop_last(), outcomes.drop_last());
    }
}

/// Where every command failed the table is empty.
pub proof fn lemma_nothing_registered(commands: Seq<CommandView>, outcomes: Seq<Option<MenuDefinition>>)
    requires
        commands.len() == outcomes.len(),
        forall|j: int| 0 <= j < commands.len() ==> (#[trigger] outcomes[j]) is None,
    ensures
        dispatched(commands, outcomes) == MenuTable::empty(),
    decreases commands.len(),
{
    if commands.len() > 0 {
        lemma_nothing_registered(commands.drop_last(), outcomes.drop_last());
    }
}

} // verus!
