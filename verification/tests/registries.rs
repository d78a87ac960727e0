use content_registry::assets::AssetManager;
use content_registry::registries::menu_registry::{
    definition_resource_id, validate_definition, EntryPoint, MenuRegistry, RegistryError,
};
use content_registry::registries::bootstrap::bootstrap;
use content_registry::registries::{
    finish_bootstrap, load_bootstrap_script, BootstrapError, GameRegistries, RegistryQueue,
};
use std::io::{Cursor, Write};
use zip::write::SimpleFileOptions;
use zip::ZipWriter;

const FULL_MENU: &str = "return { init_menu = function() return 1 end, process_tick = function() return 2 end, process_input = function() return 3 end, draw_menu = function() return 4 end }";
const OTHER_MENU: &str = "return { init_menu = function() return 10 end, process_tick = function() return 20 end, process_input = function() return 30 end, draw_menu = function() return 40 end }";
const NO_DRAW: &str = "return { init_menu = function() end, process_tick = function() end, process_input = function() end }";

fn assets(entries: &[(&str, &str)]) -> AssetManager {
    let mut writer = ZipWriter::new(Cursor::new(Vec::new()));
    for (name, data) in entries {
        writer.start_file(*name, SimpleFileOptions::default()).unwrap();
        writer.write_all(data.as_bytes()).unwrap();
    }
    AssetManager::new(vec![writer.finish().unwrap().into_inner()]).unwrap()
}

fn answer(function: &mlua::Function) -> i64 {
    function.call::<i64>(()).unwrap()
}

#[test]
fn definition_path_is_under_menus() {
    assert_eq!(definition_resource_id("pause"), "menus/pause.lua");
    assert_eq!(definition_resource_id(""), "menus/.lua");
}

#[test]
fn entry_point_names() {
    assert_eq!(EntryPoint::Init.name(), "init_menu");
    assert_eq!(EntryPoint::ProcessTick.name(), "process_tick");
    assert_eq!(EntryPoint::ProcessInput.name(), "process_input");
    assert_eq!(EntryPoint::Draw.name(), "draw_menu");
}

#[test]
fn validation_names_the_first_missing_entry_point() {
    let lua = mlua::Lua::new();
    let f = |n: i64| -> Option<mlua::Function> {
        Some(lua.load(format!("return function() return {} end", n)).eval().unwrap())
    };
    let missing = |r: Result<_, RegistryError>| r.err();
    assert_eq!(
        missing(validate_definition(None, None, None, None)),
        Some(RegistryError::DefinitionMissingEntryPoint(EntryPoint::Init))
    );
    assert_eq!(
        missing(validate_definition(f(1), None, f(3), None)),
        Some(RegistryError::DefinitionMissingEntryPoint(EntryPoint::ProcessTick))
    );
    assert_eq!(
        missing(validate_definition(f(1), f(2), None, f(4))),
        Some(RegistryError::DefinitionMissingEntryPoint(EntryPoint::ProcessInput))
    );
    assert_eq!(
        missing(validate_definition(f(1), f(2), f(3), None)),
        Some(RegistryError::DefinitionMissingEntryPoint(EntryPoint::Draw))
    );
    let definition = validate_definition(f(1), f(2), f(3), f(4)).unwrap();
    assert_eq!(answer(&definition.init_function), 1);
    assert_eq!(answer(&definition.process_function), 2);
    assert_eq!(answer(&definition.input_function), 3);
    assert_eq!(answer(&definition.draw_function), 4);
}

#[test]
fn registering_main_twice_keeps_its_ordinal() {
    let lua = mlua::Lua::new();
    let mut first = assets(&[("menus/main.lua", FULL_MENU), ("menus/side.lua", FULL_MENU)]);
    let mut second = assets(&[("menus/main.lua", OTHER_MENU)]);
    let mut registry = MenuRegistry::default();
    assert_eq!(registry.register_menu("main".to_owned(), &mut first, &lua), Ok(()));
    assert_eq!(registry.register_menu("side".to_owned(), &mut first, &lua), Ok(()));
    assert_eq!(registry.get_menu_index("main".into()), Some(0));
    assert_eq!(answer(&registry.get_menu_reference(0).unwrap().draw_function), 4);
    assert_eq!(registry.register_menu("main".to_owned(), &mut second, &lua), Ok(()));
    assert_eq!(registry.get_menu_index("main".into()), Some(0));
    assert_eq!(registry.get_menu_index("side".into()), Some(1));
    assert_eq!(answer(&registry.get_menu_reference(0).unwrap().draw_function), 40);
    assert_eq!(answer(&registry.get_menu_reference(0).unwrap().init_function), 10);
    assert_eq!(answer(&registry.get_menu_reference(1).unwrap().draw_function), 4);
    assert!(registry.get_menu_reference(2).is_none());
}

#[test]
fn lookups_on_an_empty_registry() {
    let registry = MenuRegistry::default();
    assert_eq!(registry.get_menu_index("main".into()), None);
    assert!(registry.get_menu_reference(0).is_none());
}

#[test]
fn install_appends_then_overwrites() {
    let lua = mlua::Lua::new();
    let f = |n: i64| -> Option<mlua::Function> {
        Some(lua.load(format!("return function() return {} end", n)).eval().unwrap())
    };
    let mut registry = MenuRegistry::default();
    registry.install("a".to_owned(), validate_definition(f(1), f(1), f(1), f(1)).unwrap());
    registry.install("b".to_owned(), validate_definition(f(2), f(2), f(2), f(2)).unwrap());
    registry.install("a".to_owned(), validate_definition(f(3), f(3), f(3), f(3)).unwrap());
    assert_eq!(registry.get_menu_index("a".into()), Some(0));
    assert_eq!(registry.get_menu_index("b".into()), Some(1));
    assert_eq!(answer(&registry.get_menu_reference(0).unwrap().init_function), 3);
    assert_eq!(answer(&registry.get_menu_reference(1).unwrap().init_function), 2);
}

#[test]
fn missing_draw_is_named() {
    let lua = mlua::Lua::new();
    let mut facade = assets(&[("menus/broken.lua", NO_DRAW)]);
    let mut registry = MenuRegistry::default();
    assert_eq!(
        registry.register_menu("broken".to_owned(), &mut facade, &lua),
        Err(RegistryError::DefinitionMissingEntryPoint(EntryPoint::Draw))
    );
    assert_eq!(registry.get_menu_index("broken".into()), None);
    assert!(registry.get_menu_reference(0).is_none());
}

#[test]
fn missing_definition_resource() {
    let lua = mlua::Lua::new();
    let mut facade = assets(&[("menus/main.lua", FULL_MENU)]);
    let mut registry = MenuRegistry::default();
    assert_eq!(
        registry.register_menu("absent".to_owned(), &mut facade, &lua),
        Err(RegistryError::DefinitionResourceMissing)
    );
    assert_eq!(registry.get_menu_index("absent".into()), None);
}

#[test]
fn definition_script_error_carries_the_message() {
    let lua = mlua::Lua::new();
    let mut facade = assets(&[("menus/bad.lua", "error('boom')")]);
    let mut registry = MenuRegistry::default();
    match registry.register_menu("bad".to_owned(), &mut facade, &lua) {
        Err(RegistryError::DefinitionScriptError(message)) => assert!(message.contains("boom")),
        other => panic!("unexpected outcome: {:?}", other),
    }
    assert_eq!(registry.get_menu_index("bad".into()), None);
}

#[test]
fn queue_grows_by_one_per_call() {
    let mut queue = RegistryQueue::default();
    assert_eq!(queue.len(), 0);
    queue.register_menu("a".to_owned());
    queue.register_menu("a".to_owned());
    assert_eq!(queue.len(), 2);
}

#[test]
fn dispatch_skips_a_failed_command() {
    let mut facade = assets(&[("menus/a.lua", FULL_MENU), ("menus/b.lua", NO_DRAW), ("menus/c.lua", OTHER_MENU)]);
    let mut queue = RegistryQueue::default();
    queue.register_menu("a".to_owned());
    queue.register_menu("b".to_owned());
    queue.register_menu("c".to_owned());
    let registries = GameRegistries::new(queue, &mut facade);
    assert_eq!(registries.menu_registry.get_menu_index("a".into()), Some(0));
    assert_eq!(registries.menu_registry.get_menu_index("b".into()), None);
    assert_eq!(registries.menu_registry.get_menu_index("c".into()), Some(1));
    assert!(registries.menu_registry.get_menu_reference(2).is_none());
}

#[test]
fn script_dispatches_a_before_b() {
    let mut facade = assets(&[
        ("init.lua", "Registry:register_menu('a')\nRegistry:register_menu('b')"),
        ("menus/a.lua", FULL_MENU),
        ("menus/b.lua", NO_DRAW),
    ]);
    let registries = bootstrap(&mut facade, &mlua::Lua::new()).ok().unwrap();
    assert_eq!(registries.menu_registry.get_menu_index("a".into()), Some(0));
    assert_eq!(registries.menu_registry.get_menu_index("b".into()), None);
}

#[test]
fn bootstrap_end_to_end() {
    let mut facade = assets(&[
        ("init.lua", "Registry:register_menu('pause')"),
        ("menus/pause.lua", FULL_MENU),
    ]);
    let registries = bootstrap(&mut facade, &mlua::Lua::new()).ok().unwrap();
    assert_eq!(registries.menu_registry.get_menu_index("pause".into()), Some(0));
    let definition = registries.menu_registry.get_menu_reference(0).unwrap();
    assert_eq!(answer(&definition.init_function), 1);
    assert_eq!(answer(&definition.process_function), 2);
    assert_eq!(answer(&definition.input_function), 3);
    assert_eq!(answer(&definition.draw_function), 4);
    assert!(registries.menu_registry.get_menu_reference(1).is_none());
}

#[test]
fn missing_bootstrap_script() {
    let mut facade = assets(&[("menus/pause.lua", FULL_MENU)]);
    assert_eq!(load_bootstrap_script(&mut facade), Err(BootstrapError::BootstrapScriptMissing));
    assert_eq!(
        bootstrap(&mut facade, &mlua::Lua::new()).err(),
        Some(BootstrapError::BootstrapScriptMissing)
    );
}

#[test]
fn failed_bootstrap_script_gives_no_registry() {
    let mut facade = assets(&[("init.lua", "Registry:register_menu('pause')\nerror('stop')"), ("menus/pause.lua", FULL_MENU)]);
    assert_eq!(
        load_bootstrap_script(&mut facade),
        Ok(b"Registry:register_menu('pause')\nerror('stop')".to_vec())
    );
    match bootstrap(&mut facade, &mlua::Lua::new()) {
        Err(BootstrapError::BootstrapScriptError(message)) => assert!(message.contains("stop")),
        Err(other) => panic!("unexpected error: {:?}", other),
        Ok(_) => panic!("a failed script must not give registries"),
    }
    assert_eq!(
        finish_bootstrap(Err("syntax".to_owned()), &mut facade).err(),
        Some(BootstrapError::BootstrapScriptError("syntax".to_owned()))
    );
}

#[test]
fn capability_is_gone_after_bootstrap() {
    let mut facade = assets(&[
        ("init.lua", "Registry:register_menu('sneaky')\nRegistry:register_menu('pause')"),
        ("menus/sneaky.lua", "Registry:register_menu('extra')\nreturn {}"),
        ("menus/pause.lua", FULL_MENU),
        ("menus/extra.lua", FULL_MENU),
    ]);
    let lua = mlua::Lua::new();
    let registries = bootstrap(&mut facade, &lua).ok().unwrap();
    assert!(lua.globals().get::<mlua::Value>("Registry").unwrap().is_nil());
    assert_eq!(registries.menu_registry.get_menu_index("sneaky".into()), None);
    assert_eq!(registries.menu_registry.get_menu_index("extra".into()), None);
    assert_eq!(registries.menu_registry.get_menu_index("pause".into()), Some(0));
    assert!(lua.load("Registry:register_menu('late')").exec().is_err());
}

#[test]
fn finish_dispatches_a_queue_that_ran() {
    let mut facade = assets(&[("menus/a.lua", FULL_MENU)]);
    let mut queue = RegistryQueue::default();
    queue.register_menu("missing".to_owned());
    queue.register_menu("a".to_owned());
    let registries = finish_bootstrap(Ok(queue), &mut facade).ok().unwrap();
    assert_eq!(registries.menu_registry.get_menu_index("a".into()), Some(0));
    assert_eq!(registries.menu_registry.get_menu_index("missing".into()), None);
}
