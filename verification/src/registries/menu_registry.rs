//! The menu registry: a table of script-backed menu definitions, found by
//! id or by ordinal, in which an id keeps its ordinal for good.
use crate::assets::AssetManager;
use mlua::{Function, Lua, Table};
use vstd::hash_map::StringHashMap;
use vstd::prelude::*;
use vstd::string::StringExecFns;

verus! {

#[verifier::external_type_specification]
#[verifier::external_body]
pub struct ExLua(Lua);

#[verifier::external_type_specification]
#[verifier::external_body]
pub struct ExTable(Table);

#[verifier::external_type_specification]
#[verifier::external_body]
pub struct ExFunction(Function);

#[verifier::external_type_specification]
#[verifier::external_body]
pub struct ExLuaError(mlua::Error);

/// The four callables that a menu's definition script must provide.
#[derive(Debug, Clone, Copy, PartialEq, Eq, Structural)]
pub enum EntryPoint {
    Init,
    ProcessTick,
    ProcessInput,
    Draw,
}

#[derive(Debug, Clone, PartialEq, Eq)]
pub enum RegistryError {
    /// No readable resource is stored under the definition's path.
    DefinitionResourceMissing,
    /// The interpreter failed on the definition script; its message.
    DefinitionScriptError(String),
    /// The definition table lacks this entry point.
    DefinitionMissingEntryPoint(EntryPoint),
}

#[derive(Debug)]
pub struct MenuDefinition {
    pub init_function: Function,
    pub process_function: Function,
    pub input_function: Function,
    pub draw_function: Function,
}

/// A registry as contracts see it: the definitions by ordinal, and the
/// ordinal of each id.
pub struct MenuTable {
    pub definitions: Seq<MenuDefinition>,
    pub ids: Map<Seq<char>, usize>,
}

impl MenuTable {
    pub open spec fn empty() -> MenuTable {
        MenuTable { definitions: Seq::empty(), ids: Map::empty() }
    }

    /// Every id has an ordinal inside the table, no two ids share one, and
    /// the ordinals fit the machine.
    pub open spec fn wf(self) -> bool {
        &&& self.definitions.len() <= usize::MAX
        &&& forall|id: Seq<char>| #[trigger] self.ids.contains_key(id) ==> self.ids[id] < self.definitions.len()
        &&& forall|id1: Seq<char>, id2: Seq<char>|
            #[trigger] self.ids.contains_key(id1) && #[trigger] self.ids.contains_key(id2) && self.ids[id1]
                == self.ids[id2] ==> id1 == id2
    }

    /// The table after `definition` was registered under `id`: in place of
    /// the old one where the id is known, else appended under the next ordinal.
    pub open spec fn install(self, id: Seq<char>, definition: MenuDefinition) -> MenuTable {
        if self.ids.contains_key(id) {
            MenuTable {
                definitions: self.definitions.update(self.ids[id] as int, definition),
                ids: self.ids,
            }
        } else {
            MenuTable {
                definitions: self.definitions.push(definition),
                ids: self.ids.insert(id, self.definitions.len() as usize),
            }
        }
    }
}

/// The logical path of the definition script of menu `id`.
pub open spec fn definition_path(id: Seq<char>) -> Seq<char> {
    "menus/"@ + id + ".lua"@
}

/// What the check of a definition table gives, from the four lookups: the
/// first missing entry point, in the order init, tick, input, draw, or the
/// definition made of the four.
pub open spec fn validated(
    init: Option<Function>,
    process: Option<Function>,
    input: Option<Function>,
    draw: Option<Function>,
) -> Result<MenuDefinition, RegistryError> {
    if init is None {
        Err(RegistryError::DefinitionMissingEntryPoint(EntryPoint::Init))
    } else if process is None {
        Err(RegistryError::DefinitionMissingEntryPoint(EntryPoint::ProcessTick))
    } else if input is None {
        Err(RegistryError::DefinitionMissingEntryPoint(EntryPoint::ProcessInput))
    } else if draw is None {
        Err(RegistryError::DefinitionMissingEntryPoint(EntryPoint::Draw))
    } else {
        Ok(
            MenuDefinition {
                init_function: init->0,
                process_function: process->0,
                input_function: input->0,
                draw_function: draw->0,
            },
        )
    }
}

/// Calls `mlua::Lua::load` on the bytes and `mlua::Chunk::eval` for a table.
/// Trusted; nothing is claimed of the outcome, which is the script's.
#[verifier::external_body]
fn eval_table(lua_state: &Lua, source: Vec<u8>) -> (r: Result<Table, mlua::Error>) {
    lua_state.load(source).eval()
}

/// Calls `mlua::Table::get` for a function stored under `name`. Trusted;
/// nothing is claimed of the outcome.
#[verifier::external_body]
fn table_function(table: &Table, name: &str) -> (r: Result<Function, mlua::Error>) {
    table.get(name)
}

/// The interpreter's message for an error, by `mlua::Error`'s `to_string`.
/// Trusted; nothing is claimed of the text.
#[verifier::external_body]
pub(crate) fn error_text(error: &mlua::Error) -> (r: String) {
    error.to_string()
}

impl EntryPoint {
    /// The name under which a definition table stores this entry point.
    pub open spec fn spec_name(self) -> Seq<char> {
        match self {
            EntryPoint::Init => "init_menu"@,
            EntryPoint::ProcessTick => "process_tick"@,
            EntryPoint::ProcessInput => "process_input"@,
            EntryPoint::Draw => "draw_menu"@,
        }
    }

    pub fn name(self) -> (r: &'static str)
        ensures
            r@ == self.spec_name(),
    {
        match self {
            EntryPoint::Init => "init_menu",
            EntryPoint::ProcessTick => "process_tick",
            EntryPoint::ProcessInput => "process_input",
            EntryPoint::Draw => "draw_menu",
        }
    }
}

/// The path under which the definition script of menu `menu_id` is stored.
pub fn definition_resource_id(menu_id: &str) -> (r: String)
    ensures
        r@ == definition_path(menu_id@),
{
    String::from_str("menus/").concat(menu_id).concat(".lua")
}

/// Checks the four lookups of a definition table against what a menu needs.
pub fn validate_definition(
    init: Option<Function>,
    process: Option<Function>,
    input: Option<Function>,
    draw: Option<Function>,
) -> (r: Result<MenuDefinition, RegistryError>)
    ensures
        r == validated(init, process, input, draw),
{
    let init_function = match init {
        Some(f) => f,
        None => {
            return Err(RegistryError::DefinitionMissingEntryPoint(EntryPoint::Init));
        },
    };
    let process_function = match process {
        Some(f) => f,
        None => {
            return Err(RegistryError::DefinitionMissingEntryPoint(EntryPoint::ProcessTick));
        },
    };
    let input_function = match input {
        Some(f) => f,
        None => {
            return Err(RegistryError::DefinitionMissingEntryPoint(EntryPoint::ProcessInput));
        },
    };
    let draw_function = match draw {
        Some(f) => f,
        None => {
            return Err(RegistryError::DefinitionMissingEntryPoint(EntryPoint::Draw));
        },
    };
    Ok(MenuDefinition { init_function, process_function, input_function, draw_function })
}

pub struct MenuRegistry {
    menus: Vec<MenuDefinition>,
    menu_ids: StringHashMap<usize>,
}

impl View for MenuRegistry {
    type V = MenuTable;

    closed spec fn view(&self) -> MenuTable {
        MenuTable { definitions: self.menus@, ids: self.menu_ids@ }
    }
}

impl Default for MenuRegistry {
    fn default() -> (r: Self)
        ensures
            r@ == MenuTable::empty(),
    {
        MenuRegistry { menus: Vec::new(), menu_ids: StringHashMap::new() }
    }
}

impl MenuRegistry {
    /// Stores `definition` under `menu_id`. A known id keeps its ordinal and
    /// gets the new definition; a new id gets the next ordinal.
    pub fn install(&mut self, menu_id: String, definition: MenuDefinition)
        requires
            old(self)@.wf(),
        ensures
            final(self)@ == old(self)@.install(menu_id@, definition),
            final(self)@.wf(),
    {
        let known = match self.menu_ids.get(menu_id.as_str()) {
            None => None,
            Some(ordinal) => Some(*ordinal),
        };
        assert(self@.ids.contains_key(menu_id@) == (known is Some));
        match known {
            None => {
                let ordinal: usize = self.menus.len();
                self.menu_ids.insert(menu_id, ordinal);
                self.menus.push(definition);
            },
            Some(ordinal) => {
                self.menus[ordinal] = definition;
            },
        }
        assert(self@.definitions.len() == self.menus.len());
    }

    /// Loads the definition script of `menu_id` through the facade,
    /// evaluates it in `lua_state`, checks the table it yields and stores
    /// the definition. On any error the registry stays as it was.
    pub fn register_menu(
        &mut self,
        menu_id: String,
        asset_manager: &mut AssetManager,
        lua_state: &Lua,
    ) -> (r: Result<(), RegistryError>)
        requires
            old(self)@.wf(),
            old(asset_manager).wf(),
        ensures
            final(self)@.wf(),
            final(asset_manager).wf(),
            final(asset_manager).layers() == old(asset_manager).layers(),
            r == Err::<(), RegistryError>(RegistryError::DefinitionResourceMissing)
                <==> AssetManager::file_of(old(asset_manager).layers(), definition_path(menu_id@)) is None,
            r is Err ==> final(self)@ == old(self)@,
            r is Ok ==> final(self)@.ids.contains_key(menu_id@) && final(self)@ == old(self)@.install(
                menu_id@,
                final(self)@.definitions[final(self)@.ids[menu_id@] as int],
            ),
    {
        let menu_resource_id = definition_resource_id(menu_id.as_str());
        let menu_data = match asset_manager.get_file_raw(menu_resource_id) {
            None => {
                return Err(RegistryError::DefinitionResourceMissing);
            },
            Some(d) => d,
        };
        let menu_table = match eval_table(lua_state, menu_data) {
            Ok(t) => t,
            Err(e) => {
                return Err(RegistryError::DefinitionScriptError(error_text(&e)));
            },
        };
        let init = table_function(&menu_table, EntryPoint::Init.name()).ok();
        let process = table_function(&menu_table, EntryPoint::ProcessTick.name()).ok();
        let input = table_function(&menu_table, EntryPoint::ProcessInput.name()).ok();
        let draw = table_function(&menu_table, EntryPoint::Draw.name()).ok();
        let menu_def = match validate_definition(init, process, input, draw) {
            Ok(d) => d,
            Err(e) => {
                return Err(e);
            },
        };
        let ghost stored = menu_def;
        let ghost id = menu_id@;
        self.install(menu_id, menu_def);
        proof {
            let before = old(self)@;
            if before.ids.contains_key(id) {
                assert(before.ids[id] < before.definitions.len());
            }
            assert(self@.ids.contains_key(id));
            assert(self@.definitions[self@.ids[id] as int] == stored);
        }
        Ok(())
    }

    /// The ordinal of `menu_id`, where it is registered.
    pub fn get_menu_index(&self, menu_id: Box<str>) -> (r: Option<usize>)
        ensures
            r == (if self@.ids.contains_key(menu_id@) {
                Some(self@.ids[menu_id@])
            } else {
                None
            }),
    {
        match self.menu_ids.get(&*menu_id) {
            None => None,
            Some(ordinal) => Some(*ordinal),
        }
    }

    /// The definition stored under ordinal `menu_index`, where there is one.
    pub fn get_menu_reference(&self, menu_index: usize) -> (r: Option<&MenuDefinition>)
        ensures
            r == (if menu_index < self@.definitions.len() {
                Some(&self@.definitions[menu_index as int])
            } else {
                None
            }),
    {
        if menu_index < self.menus.len() {
            Some(&self.menus[menu_index])
        } else {
            None
        }
    }
}

} // verus!
