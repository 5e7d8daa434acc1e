use chunk_address::game::{
    get_games_error_of, join_error_of, leave_error_of, register_error_of, Game, GameConfig,
    GameHandleAccessError, GameInfo, GameInstallGameModuleInfoError, GameLoadGameConfigError,
    GameLoadGameStateError,
    GameManager, GameManagerDeleteGameError, GameManagerGetGamesError,
    GameManagerJoinGameError, GameManagerLeaveGameError, GameManagerRegisterGameHandleError,
    GameManagerUnregisterGameHandleError, GameModuleInfo, GameState,
    GameUnloadGameConfigError, GameUnloadGameStateError,
};
use std::any::TypeId;
use std::collections::HashMap;

type TestGame = Game<&'static str, i32>;

fn module(id: u64) -> GameModuleInfo {
    GameModuleInfo { game_module_type_id: TypeId::of::<u8>(), game_module_id: id }
}

fn info(id: u64, modules: Vec<u64>) -> GameInfo {
    match GameInfo::new(id, format!("game {}", id), modules.into_iter().map(module).collect()) {
        Ok(info) => info,
        Err(_) => panic!("modules with numbers of their own must be accepted"),
    }
}

fn config(modules: Vec<u64>) -> GameConfig<&'static str> {
    let mut map = HashMap::new();
    for id in modules {
        map.insert(id, "config");
    }
    GameConfig::new(map)
}

fn state(modules: Vec<u64>) -> GameState<i32> {
    let mut map = HashMap::new();
    for id in modules {
        map.insert(id, id as i32);
    }
    GameState::new(map)
}

#[test]
fn game_info_keeps_what_it_is_made_of() {
    let i = info(4, vec![10, 20]);
    assert_eq!(i.get_game_id(), 4);
    assert_eq!(i.get_name(), "game 4");
    assert_eq!(i.get_installed_game_modules().len(), 2);
    assert_eq!(i.get_installed_game_modules()[1].get_game_module_id(), 20);
    assert_eq!(
        i.get_installed_game_modules()[0].get_game_module_type_id(),
        TypeId::of::<u8>()
    );
    let copy = i.clone();
    assert_eq!(copy.get_game_id(), 4);
    assert_eq!(copy.get_name(), "game 4");
    assert_eq!(copy.get_installed_game_modules().len(), 2);
    let d = GameInfo::default();
    assert_eq!(d.get_game_id(), 0);
    assert_eq!(d.get_name(), "");
    assert!(d.get_installed_game_modules().is_empty());
}

#[test]
fn game_info_refuses_two_modules_of_one_number() {
    assert_eq!(
        GameInfo::new(1, "twice".to_string(), vec![module(5), module(6), module(5)]).err(),
        Some(GameInstallGameModuleInfoError::GameModuleAlreadyInstalled)
    );
    assert_eq!(
        GameInfo::new(1, "twice".to_string(), vec![module(5), module(5)]).err(),
        Some(GameInstallGameModuleInfoError::GameModuleAlreadyInstalled)
    );
    assert!(GameInfo::new(1, "once".to_string(), vec![module(5), module(6), module(7)]).is_ok());
    assert!(GameInfo::new(1, "none".to_string(), vec![]).is_ok());
}

#[test]
fn game_infos_are_equal_when_their_numbers_are() {
    assert!(info(1, vec![]) == info(1, vec![5]));
    assert!(info(1, vec![]) != info(2, vec![]));
}

#[test]
fn compatibility_asks_for_every_needed_module() {
    let i = info(1, vec![10, 20]);
    assert!(i.is_compatible_with_config(&config(vec![10, 20])));
    assert!(i.is_compatible_with_config(&config(vec![20, 30, 10])));
    assert!(!i.is_compatible_with_config(&config(vec![10])));
    assert!(!i.is_compatible_with_config(&config(vec![])));
    assert!(info(1, vec![]).is_compatible_with_config(&config(vec![])));
    assert!(i.is_compatible_with_state(&state(vec![10, 20])));
    assert!(!i.is_compatible_with_state(&state(vec![20])));
}

#[test]
fn config_and_state_tell_what_is_installed() {
    let c = config(vec![1, 2]);
    assert!(c.is_game_module_installed(1));
    assert!(!c.is_game_module_installed(3));
    assert_eq!(c.get_installed_game_module(2), Some(&"config"));
    assert_eq!(c.get_installed_game_module(3), None);
    assert_eq!(c.get_installed_game_modules().len(), 2);
    let empty: GameConfig<&'static str> = GameConfig::default();
    assert!(empty.get_installed_game_modules().is_empty());
    let mut s = state(vec![7]);
    assert!(s.is_game_module_installed(7));
    assert_eq!(s.get_installed_game_module(7), Some(&7));
    assert_eq!(s.get_installed_game_module(8), None);
    assert!(!s.get_has_been_joined());
    s.set_has_been_joined(true);
    assert!(s.get_has_been_joined());
    assert!(s.is_game_module_installed(7));
    let d: GameState<i32> = GameState::default();
    assert!(!d.get_has_been_joined());
    assert!(d.get_installed_game_modules().is_empty());
}

#[test]
fn game_loads_and_unloads_step_by_step() {
    let mut game: TestGame = Game::new(info(3, vec![10]));
    assert!(game.get_game_config().is_none());
    assert!(game.get_game_state().is_none());
    assert_eq!(game.get_game_info().get_game_id(), 3);

    assert_eq!(game.load_game_config(config(vec![10, 11])), Ok(()));
    assert!(matches!(game, Game::GameConfigLoaded { .. }));
    assert_eq!(game.get_game_config().map(|c| c.is_game_module_installed(11)), Some(true));
    assert!(game.get_game_state().is_none());

    assert_eq!(game.load_game_state(state(vec![10])), Ok(()));
    assert!(matches!(game, Game::GameStateLoaded { .. }));
    assert_eq!(game.get_game_state().map(|s| s.get_installed_game_module(10)), Some(Some(&10)));
    assert_eq!(game.get_game_config().map(|c| c.is_game_module_installed(11)), Some(true));

    assert_eq!(game.unload_game_state(), Ok(()));
    assert!(matches!(game, Game::GameConfigLoaded { .. }));
    assert_eq!(game.get_game_config().map(|c| c.is_game_module_installed(11)), Some(true));
    assert_eq!(game.unload_game_config(), Ok(()));
    assert!(matches!(game, Game::GameInfoLoaded { .. }));
    assert_eq!(game.get_game_info().get_name(), "game 3");
}

#[test]
fn game_refuses_steps_out_of_order() {
    let mut game: TestGame = Game::new(info(3, vec![10]));
    assert_eq!(
        game.load_game_state(state(vec![10])),
        Err(GameLoadGameStateError::GameConfigNotLoaded)
    );
    assert_eq!(game.unload_game_config(), Err(GameUnloadGameConfigError::AlreadyUnloaded));
    assert_eq!(game.unload_game_state(), Err(GameUnloadGameStateError::AlreadyUnloaded));
    assert!(matches!(game, Game::GameInfoLoaded { .. }));

    assert_eq!(game.load_game_config(config(vec![10])), Ok(()));
    assert_eq!(
        game.load_game_config(config(vec![10])),
        Err(GameLoadGameConfigError::AlreadyLoaded)
    );
    assert_eq!(game.unload_game_state(), Err(GameUnloadGameStateError::AlreadyUnloaded));

    assert_eq!(game.load_game_state(state(vec![10])), Ok(()));
    assert_eq!(
        game.load_game_state(state(vec![10])),
        Err(GameLoadGameStateError::AlreadyLoaded)
    );
    assert_eq!(
        game.load_game_config(config(vec![10])),
        Err(GameLoadGameConfigError::AlreadyLoaded)
    );
    assert_eq!(
        game.unload_game_config(),
        Err(GameUnloadGameConfigError::GameStateNotUnloaded)
    );
    assert!(matches!(game, Game::GameStateLoaded { .. }));
}

#[test]
fn game_refuses_what_lacks_a_needed_module() {
    let mut game: TestGame = Game::new(info(3, vec![10, 20]));
    assert_eq!(
        game.load_game_config(config(vec![10])),
        Err(GameLoadGameConfigError::IncompatibleConfig)
    );
    assert!(matches!(game, Game::GameInfoLoaded { .. }));
    // an incompatible state is told before a missing configuration
    assert_eq!(
        game.load_game_state(state(vec![20])),
        Err(GameLoadGameStateError::IncompatibleState)
    );
    assert_eq!(game.load_game_config(config(vec![10, 20])), Ok(()));
    // an incompatible configuration is told before one that is loaded already
    assert_eq!(
        game.load_game_config(config(vec![])),
        Err(GameLoadGameConfigError::IncompatibleConfig)
    );
    assert_eq!(
        game.load_game_state(state(vec![])),
        Err(GameLoadGameStateError::IncompatibleState)
    );
    assert!(matches!(game, Game::GameConfigLoaded { .. }));
}

#[test]
fn joined_is_noted_on_a_loaded_state_only() {
    let mut game: TestGame = Game::new(info(3, vec![]));
    assert!(!game.set_joined(true));
    assert_eq!(game.load_game_config(config(vec![])), Ok(()));
    assert!(!game.set_joined(true));
    assert_eq!(game.load_game_state(state(vec![5])), Ok(()));
    assert!(game.set_joined(true));
    assert_eq!(game.get_game_state().map(|s| s.get_has_been_joined()), Some(true));
    assert_eq!(game.get_game_state().map(|s| s.is_game_module_installed(5)), Some(true));
    assert!(game.set_joined(false));
    assert_eq!(game.get_game_state().map(|s| s.get_has_been_joined()), Some(false));
}

#[test]
fn manager_gives_out_recycled_numbers_first() {
    let mut manager: GameManager<&'static str> = GameManager::new();
    assert_eq!(manager.get_unused_game_id(), Some(1));
    assert_eq!(manager.get_unused_game_id(), Some(2));
    assert_eq!(manager.get_unused_game_id(), Some(3));
    manager.recycle_used_game_id(2);
    manager.recycle_used_game_id(1);
    assert_eq!(manager.get_unused_game_id(), Some(1));
    assert_eq!(manager.get_unused_game_id(), Some(2));
    assert_eq!(manager.get_unused_game_id(), Some(4));
}

#[test]
fn manager_registers_each_number_once() {
    let mut manager: GameManager<&'static str> = GameManager::new();
    assert_eq!(manager.get_game_handle(1), None);
    assert_eq!(manager.register_game_handle(1, "first"), Ok(()));
    assert_eq!(
        manager.register_game_handle(1, "again"),
        Err(GameManagerRegisterGameHandleError::GameAlreadyRegistered)
    );
    assert_eq!(manager.get_game_handle(1), Some(&"first"));
    assert_eq!(manager.register_game_handle(2, "second"), Ok(()));
    assert_eq!(manager.unregister_game_handle(1), Ok(()));
    assert_eq!(
        manager.unregister_game_handle(1),
        Err(GameManagerUnregisterGameHandleError::GameNotRegistered)
    );
    assert_eq!(manager.get_game_handle(1), None);
    assert_eq!(manager.delete_game(2), Ok(()));
    assert_eq!(
        manager.delete_game(2),
        Err(GameManagerDeleteGameError::GameDoesNotExist)
    );
    // the numbers of the games that left are given out again, the last first
    assert_eq!(manager.get_unused_game_id(), Some(2));
    assert_eq!(manager.get_unused_game_id(), Some(1));
    assert_eq!(manager.get_unused_game_id(), Some(1));
}

#[test]
fn joining_needs_a_registered_game_with_a_state() {
    let mut manager: GameManager<&'static str> = GameManager::new();
    let mut game: TestGame = Game::new(info(1, vec![]));
    assert_eq!(
        manager.can_join_game(1),
        Err(GameManagerJoinGameError::GameDoesNotExist)
    );
    assert_eq!(
        manager.join_game(1, &mut game),
        Err(GameManagerJoinGameError::GameDoesNotExist)
    );
    assert_eq!(manager.register_game_handle(1, "one"), Ok(()));
    assert_eq!(manager.can_join_game(1), Ok(()));
    assert_eq!(
        manager.join_game(1, &mut game),
        Err(GameManagerJoinGameError::GameConfigNotLoaded)
    );
    assert_eq!(game.load_game_config(config(vec![])), Ok(()));
    assert_eq!(
        manager.join_game(1, &mut game),
        Err(GameManagerJoinGameError::GameStateNotLoaded)
    );
    assert_eq!(manager.get_currently_joined_game(), None);
    assert_eq!(game.load_game_state(state(vec![])), Ok(()));
    assert_eq!(manager.join_game(1, &mut game), Ok(()));
    assert_eq!(manager.get_currently_joined_game(), Some(1));
    assert_eq!(game.get_game_state().map(|s| s.get_has_been_joined()), Some(true));

    assert_eq!(
        manager.can_join_game(1),
        Err(GameManagerJoinGameError::GameAlreadyJoined)
    );
    assert_eq!(
        manager.join_game(1, &mut game),
        Err(GameManagerJoinGameError::GameAlreadyJoined)
    );
    assert_eq!(
        manager.join_game(9, &mut game),
        Err(GameManagerJoinGameError::GameDoesNotExist)
    );

    assert_eq!(manager.leave_game(&mut game), Ok(()));
    assert_eq!(manager.get_currently_joined_game(), None);
    assert_eq!(game.get_game_state().map(|s| s.get_has_been_joined()), Some(false));
    assert_eq!(
        manager.leave_game(&mut game),
        Err(GameManagerLeaveGameError::GameNotJoined)
    );
}

#[test]
fn access_errors_become_the_errors_of_each_operation() {
    assert_eq!(
        register_error_of(GameHandleAccessError::Locked),
        GameManagerRegisterGameHandleError::MutexLocked
    );
    assert_eq!(
        register_error_of(GameHandleAccessError::Poisoned),
        GameManagerRegisterGameHandleError::MutexPoisoned
    );
    assert_eq!(
        get_games_error_of(GameHandleAccessError::Locked),
        GameManagerGetGamesError::MutexLocked
    );
    assert_eq!(
        get_games_error_of(GameHandleAccessError::Poisoned),
        GameManagerGetGamesError::MutexPoisoned
    );
    assert_eq!(
        join_error_of(GameHandleAccessError::Locked),
        GameManagerJoinGameError::MutexLocked
    );
    assert_eq!(
        join_error_of(GameHandleAccessError::Poisoned),
        GameManagerJoinGameError::MutexPoisoned
    );
    assert_eq!(
        leave_error_of(GameHandleAccessError::Locked),
        GameManagerLeaveGameError::MutexLocked
    );
    assert_eq!(
        leave_error_of(GameHandleAccessError::Poisoned),
        GameManagerLeaveGameError::MutexPoisoned
    );
}
