//! The bootstrap: the one script that may register content runs with the
//! queue in its reach, loses it, and only then are its commands dispatched.
use crate::assets::AssetManager;
use crate::registries::menu_registry::error_text;
use crate::registries::{
    bootstrap_path, finish_bootstrap, load_bootstrap_script, populated_from, BootstrapError,
    CommandView, GameRegistries, RegistryQueue,
};
use mlua::{Function, Lua, Table};
use std::cell::RefCell;
use std::rc::Rc;
use vstd::prelude::*;

verus! {

#[verifier::external_type_specification]
#[verifier::external_body]
#[verifier::reject_recursive_types(T)]
pub struct ExRefCell<T: ?Sized>(RefCell<T>);

/// Calls `std::cell::RefCell::new`. Trusted; the cell is opaque here.
#[verifier::external_body]
fn fresh_cell(queue: RegistryQueue) -> (r: RefCell<RegistryQueue>) {
    RefCell::new(queue)
}

/// Calls `std::cell::RefCell::take`: the buffered queue comes out and an
/// empty one stays. Trusted; nothing is claimed of what a script put there.
#[verifier::external_body]
fn reclaim(buffer: &Rc<RefCell<RegistryQueue>>) -> (r: RegistryQueue) {
    buffer.take()
}

/// Calls `mlua::Lua::create_function` for a callable that takes the
/// capability and a menu id, and appends the registration to the buffer
/// that `buffer` shares. Trusted; nothing is claimed of the outcome.
#[verifier::external_body]
fn enqueue_function(lua_state: &Lua, buffer: &Rc<RefCell<RegistryQueue>>) -> (r: Result<Function, mlua::Error>) {
    let sink = Rc::clone(buffer);
    lua_state.create_function(move |_, (_, menu_id): (mlua::Value, String)| {
        sink.borrow_mut().register_menu(menu_id);
        Ok(())
    })
}

/// Calls `mlua::Lua::create_table`. Trusted; nothing is claimed of the outcome.
#[verifier::external_body]
fn new_table(lua_state: &Lua) -> (r: Result<Table, mlua::Error>) {
    lua_state.create_table()
}

/// Calls `mlua::Table::set` to store a function under `name`. Trusted;
/// nothing is claimed of the outcome.
#[verifier::external_body]
fn set_function(table: &Table, name: &str, function: Function) -> (r: Result<(), mlua::Error>) {
    table.set(name, function)
}

/// Calls `mlua::Table::set` on `mlua::Lua::globals` to bind a table to a
/// global name. Trusted; nothing is claimed of the outcome.
#[verifier::external_body]
fn set_global(lua_state: &Lua, name: &str, table: Table) -> (r: Result<(), mlua::Error>) {
    lua_state.globals().set(name, table)
}

/// Calls `mlua::Table::set` on `mlua::Lua::globals` to bind nil to a global
/// name. Trusted; nothing is claimed of the outcome.
#[verifier::external_body]
fn clear_global(lua_state: &Lua, name: &str) -> (r: Result<(), mlua::Error>) {
    lua_state.globals().set(name, mlua::Nil)
}

/// Calls `mlua::Lua::load` on the bytes and `mlua::Chunk::exec`. Trusted;
/// nothing is claimed of the outcome, which is the script's, and a script
/// that does not end does not return.
#[verifier::external_body]
fn exec_script(lua_state: &Lua, source: Vec<u8>) -> (r: Result<(), mlua::Error>) {
    lua_state.load(source).exec()
}

/// Puts the registration capability in the interpreter's reach: a table
/// bound to the global `Registry`, with the one callable `register_menu`.
fn expose_queue(lua_state: &Lua, buffer: &Rc<RefCell<RegistryQueue>>) -> (r: Result<(), mlua::Error>) {
    let enqueue = match enqueue_function(lua_state, buffer) {
        Ok(f) => f,
        Err(e) => {
            return Err(e);
        },
    };
    let capability = match new_table(lua_state) {
        Ok(t) => t,
        Err(e) => {
            return Err(e);
        },
    };
    match set_function(&capability, "register_menu", enqueue) {
        Ok(()) => set_global(lua_state, "Registry", capability),
        Err(e) => Err(e),
    }
}

/// The whole bootstrap, in its fixed order: load the bootstrap script; run
/// it in `lua_state` with a fresh queue exposed; take the queue out of the
/// interpreter's reach, whatever the script did; dispatch what was queued.
/// A missing script or a failed run ends it with no registry at all.
pub fn bootstrap(asset_manager: &mut AssetManager, lua_state: &Lua) -> (r: Result<
    GameRegistries,
    BootstrapError,
>)
    requires
        old(asset_manager).wf(),
    ensures
        final(asset_manager).wf(),
        final(asset_manager).layers() == old(asset_manager).layers(),
        r == Err::<GameRegistries, BootstrapError>(BootstrapError::BootstrapScriptMissing)
            <==> AssetManager::file_of(old(asset_manager).layers(), bootstrap_path()) is None,
        r is Ok ==> r->Ok_0.menu_registry@.wf() && exists|commands: Seq<CommandView>| #[trigger]
            populated_from(r->Ok_0.menu_registry@, commands, old(asset_manager).layers()),
{
    let script = match load_bootstrap_script(asset_manager) {
        Ok(s) => s,
        Err(e) => {
            return Err(e);
        },
    };
    let buffer = Rc::new(fresh_cell(RegistryQueue::default()));
    let run = match expose_queue(lua_state, &buffer) {
        Ok(()) => exec_script(lua_state, script),
        Err(e) => Err(e),
    };
    let revoked = clear_global(lua_state, "Registry");
    let queue = reclaim(&buffer);
    let outcome = match run {
        Err(e) => Err(error_text(&e)),
        Ok(()) => match revoked {
            Err(e) => Err(error_text(&e)),
            Ok(()) => Ok(queue),
        },
    };
    finish_bootstrap(outcome, asset_manager)
}

} // verus!
