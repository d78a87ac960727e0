//! Content registries and the queue of registration commands that fills them.
pub mod bootstrap;
pub mod laws;
pub mod menu_registry;

use crate::assets::archive_manager::ArchiveContents;
use crate::assets::AssetManager;
use crate::registries::menu_registry::{definition_path, MenuDefinition, MenuRegistry, MenuTable};
use mlua::Lua;
use vstd::prelude::*;

verus! {

/// A request to register one piece of content, as a bootstrap script made it.
#[derive(Debug, Clone, PartialEq, Eq)]
pub enum RegistryCommand {
    RegisterMenu(String),
}

/// A command as contracts see it.
pub enum CommandView {
    RegisterMenu(Seq<char>),
}

impl View for RegistryCommand {
    type V = CommandView;

    open spec fn view(&self) -> CommandView {
        match self {
            RegistryCommand::RegisterMenu(id) => CommandView::RegisterMenu(id@),
        }
    }
}

impl CommandView {
    /// The path of the definition script that the command asks for.
    pub open spec fn resource(self) -> Seq<char> {
        match self {
            CommandView::RegisterMenu(id) => definition_path(id),
        }
    }
}

/// The buffer of commands that a bootstrap script fills: append only, in
/// the order of the calls.
#[derive(Debug)]
pub struct RegistryQueue {
    commands: Vec<RegistryCommand>,
}

impl View for RegistryQueue {
    type V = Seq<CommandView>;

    closed spec fn view(&self) -> Seq<CommandView> {
        Seq::new(self.commands@.len(), |i: int| self.commands@[i]@)
    }
}

impl Default for RegistryQueue {
    fn default() -> (r: Self)
        ensures
            r@ == Seq::<CommandView>::empty(),
    {
        let r = RegistryQueue { commands: Vec::new() };
        assert(r@ =~= Seq::<CommandView>::empty());
        r
    }
}

impl RegistryQueue {
    /// Appends the request to register menu `menu_id`. Nothing is checked
    /// here: that is for the dispatch.
    pub fn register_menu(&mut self, menu_id: String)
        ensures
            final(self)@ == old(self)@.push(CommandView::RegisterMenu(menu_id@)),
    {
        self.commands.push(RegistryCommand::RegisterMenu(menu_id));
        assert(self@ =~= old(self)@.push(CommandView::RegisterMenu(menu_id@)));
    }

    /// The number of commands waiting.
    pub fn len(&self) -> (n: usize)
        ensures
            n == self@.len(),
    {
        self.commands.len()
    }
}

/// The table that dispatching `commands` in order leaves, where
/// `outcomes` holds for each command the definition that its script gave,
/// or nothing where the command failed and was skipped.
pub open spec fn dispatched(commands: Seq<CommandView>, outcomes: Seq<Option<MenuDefinition>>) -> MenuTable
    decreases commands.len(),
{
    if commands.len() == 0 || outcomes.len() != commands.len() {
        MenuTable::empty()
    } else {
        let earlier = dispatched(commands.drop_last(), outcomes.drop_last());
        match (commands.last(), outcomes.last()) {
            (CommandView::RegisterMenu(id), Some(definition)) => earlier.install(id, definition),
            (_, None) => earlier,
        }
    }
}

/// `table` is what dispatching `commands` against `layers` can leave: some
/// outcome for each command, none for a command whose definition script
/// cannot be had from `layers`.
pub open spec fn populated_from(
    table: MenuTable,
    commands: Seq<CommandView>,
    layers: Seq<ArchiveContents>,
) -> bool {
    exists|outcomes: Seq<Option<MenuDefinition>>|
        {
            &&& outcomes.len() == commands.len()
            &&& #[trigger] dispatched(commands, outcomes) == table
            &&& forall|i: int|
                0 <= i < commands.len() && AssetManager::file_of(layers, commands[i].resource()) is None
                    ==> (#[trigger] outcomes[i]) is None
        }
}

/// Calls `mlua::Lua::new`: a fresh interpreter with the safe part of the
/// standard library. Trusted; nothing is claimed of it.
#[verifier::external_body]
fn new_lua() -> (r: Lua) {
    Lua::new()
}

/// Everything that content scripts registered, ready for use, together
/// with the interpreter in which the definitions live.
pub struct GameRegistries {
    pub menu_registry: MenuRegistry,
    pub definition_state: Lua,
}

#[derive(Debug, Clone, PartialEq, Eq)]
pub enum BootstrapError {
    /// No readable bootstrap script is stored in the archives.
    BootstrapScriptMissing,
    /// The interpreter failed on the bootstrap script; its message.
    BootstrapScriptError(String),
}

/// The logical path of the bootstrap script.
pub open spec fn bootstrap_path() -> Seq<char> {
    "init.lua"@
}

impl GameRegistries {
    /// Dispatches the commands of the queue in the order in which they were
    /// made, each to the registry that owns its kind, with an interpreter of
    /// its own. A command that fails is skipped and the rest goes on.
    pub fn new(command_queue: RegistryQueue, asset_manager: &mut AssetManager) -> (r: Self)
        requires
            old(asset_manager).wf(),
        ensures
            final(asset_manager).wf(),
            final(asset_manager).layers() == old(asset_manager).layers(),
            r.menu_registry@.wf(),
            populated_from(r.menu_registry@, command_queue@, old(asset_manager).layers()),
    {
        let definition_state = new_lua();
        let mut menu_registry = MenuRegistry::default();
        let ghost commands = command_queue@;
        let ghost layers = asset_manager.layers();
        let ghost mut outcomes: Seq<Option<MenuDefinition>> = Seq::empty();
        let count: usize = command_queue.commands.len();
        let mut next: usize = 0;
        while next < count
            invariant
                next <= count,
                count == command_queue.commands.len(),
                commands == command_queue@,
                commands.len() == count,
                asset_manager.wf(),
                asset_manager.layers() == layers,
                menu_registry@.wf(),
                outcomes.len() == next,
                menu_registry@ == dispatched(commands.take(next as int), outcomes),
                forall|i: int|
                    0 <= i < next && AssetManager::file_of(layers, commands[i].resource()) is None
                        ==> (#[trigger] outcomes[i]) is None,
            decreases count - next,
        {
            let ghost earlier = outcomes;
            match &command_queue.commands[next] {
                RegistryCommand::RegisterMenu(menu_id) => {
                    let id = menu_id.clone();
                    let result = menu_registry.register_menu(id, asset_manager, &definition_state);
                    proof {
                        let outcome = if result is Ok {
                            Some(menu_registry@.definitions[menu_registry@.ids[menu_id@] as int])
                        } else {
                            None
                        };
                        outcomes = earlier.push(outcome);
                        assert(commands[next as int] == CommandView::RegisterMenu(menu_id@));
                    }
                },
            }
            proof {
                let upto = commands.take(next as int + 1);
                assert(upto.drop_last() =~= commands.take(next as int));
                assert(outcomes.drop_last() =~= earlier);
                assert(upto.last() == commands[next as int]);
            }
            next += 1;
        }
        assert(commands.take(count as int) =~= commands);
        GameRegistries { menu_registry, definition_state }
    }
}

/// The first step of a bootstrap: the bytes of the bootstrap script, or
/// `BootstrapScriptMissing` where the archives hold none that can be read.
pub fn load_bootstrap_script(asset_manager: &mut AssetManager) -> (r: Result<Vec<u8>, BootstrapError>)
    requires
        old(asset_manager).wf(),
    ensures
        final(asset_manager).wf(),
        final(asset_manager).layers() == old(asset_manager).layers(),
        match r {
            Ok(script) => AssetManager::file_of(old(asset_manager).layers(), bootstrap_path()) == Some(
                script@,
            ),
            Err(e) => e == BootstrapError::BootstrapScriptMissing && AssetManager::file_of(
                old(asset_manager).layers(),
                bootstrap_path(),
            ) is None,
        },
{
    match asset_manager.get_file_raw("init.lua".to_owned()) {
        Some(script) => Ok(script),
        None => Err(BootstrapError::BootstrapScriptMissing),
    }
}

/// The last steps of a bootstrap, once the script has run and the queue was
/// taken back from the interpreter: a script that failed ends the bootstrap
/// with its message and no registry; else the queue is dispatched.
pub fn finish_bootstrap(run: Result<RegistryQueue, String>, asset_manager: &mut AssetManager) -> (r: Result<
    GameRegistries,
    BootstrapError,
>)
    requires
        old(asset_manager).wf(),
    ensures
        final(asset_manager).wf(),
        final(asset_manager).layers() == old(asset_manager).layers(),
        match run {
            Err(message) => r == Err::<GameRegistries, BootstrapError>(
                BootstrapError::BootstrapScriptError(message),
            ),
            Ok(queue) => r is Ok && r->Ok_0.menu_registry@.wf() && populated_from(
                r->Ok_0.menu_registry@,
                queue@,
                old(asset_manager).layers(),
            ),
        },
{
    match run {
        Err(message) => Err(BootstrapError::BootstrapScriptError(message)),
        Ok(queue) => Ok(GameRegistries::new(queue, asset_manager)),
    }
}

} // verus!
