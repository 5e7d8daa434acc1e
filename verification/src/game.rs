//! Games: what is known of a game, the steps by which its configuration
//! and its state are loaded, and the books of a manager of games.

use vstd::prelude::*;
use vstd::std_specs::cmp::PartialEqSpecImpl;
use std::any::TypeId;
use std::collections::HashMap;

verus! {

broadcast use vstd::std_specs::hash::group_hash_axioms;

/// The number by which a game is known.
pub type GameID = u64;

/// The type by which a kind of game module is known.
pub type GameModuleTypeID = TypeId;

/// The number by which an installed game module is known.
pub type GameModuleID = u64;

/// What is known of an installed game module: its kind and its number.
#[derive(Clone, Copy, Debug)]
pub struct GameModuleInfo {
    pub game_module_type_id: GameModuleTypeID,
    pub game_module_id: GameModuleID,
}

impl GameModuleInfo {
    /// The kind of the module.
    pub fn get_game_module_type_id(&self) -> (r: GameModuleTypeID)
        ensures
            r == self.game_module_type_id,
    {
        self.game_module_type_id
    }

    /// The number of the module.
    pub fn get_game_module_id(&self) -> (r: GameModuleID)
        ensures
            r == self.game_module_id,
    {
        self.game_module_id
    }
}

/// No two of the modules have the same number.
pub open spec fn distinct_modules(modules: Seq<GameModuleInfo>) -> bool {
    forall|i: int, j: int|
        0 <= i < j < modules.len() ==> modules[i].game_module_id != modules[j].game_module_id
}

/// Whether no two of the modules have the same number.
fn modules_are_distinct(modules: &Vec<GameModuleInfo>) -> (r: bool)
    ensures
        r == distinct_modules(modules@),
{
    let mut j: usize = 0;
    while j < modules.len()
        invariant
            j <= modules@.len(),
            forall|a: int, b: int|
                0 <= a < b < j ==> modules@[a].game_module_id != modules@[b].game_module_id,
        decreases modules@.len() - j,
    {
        let mut i: usize = 0;
        while i < j
            invariant
                i <= j < modules@.len(),
                forall|a: int|
                    0 <= a < i ==> modules@[a].game_module_id != modules@[j as int].game_module_id,
            decreases j - i,
        {
            if modules[i].game_module_id == modules[j].game_module_id {
                return false;
            }
            i = i + 1;
        }
        j = j + 1;
    }
    true
}

/// What is known of a game: its number, its name and the modules that it
/// needs, each of which has a number of its own.
#[derive(Debug)]
pub struct GameInfo {
    game_id: GameID,
    name: String,
    installed_game_modules: Vec<GameModuleInfo>,
}

impl GameInfo {
    /// The number of the game.
    pub closed spec fn game_id(&self) -> GameID {
        self.game_id
    }

    /// The name of the game.
    pub closed spec fn name(&self) -> Seq<char> {
        self.name@
    }

    /// The modules that the game needs.
    pub closed spec fn modules(&self) -> Seq<GameModuleInfo> {
        self.installed_game_modules@
    }

    /// The other holds the same number, name and modules.
    pub open spec fn same_as(&self, other: GameInfo) -> bool {
        &&& self.game_id() == other.game_id()
        &&& self.name() == other.name()
        &&& self.modules() == other.modules()
    }

    /// Every module that the game needs is among the given ones.
    pub open spec fn needs_only(&self, installed: Set<GameModuleID>) -> bool {
        forall|i: int|
            0 <= i < self.modules().len() ==> installed.contains(
                (#[trigger] self.modules()[i]).game_module_id,
            )
    }

    #[verifier::type_invariant]
    closed spec fn well_formed(self) -> bool {
        distinct_modules(self.installed_game_modules@)
    }

    /// What is known of a game with the given number, name and modules.
    /// Modules of which two have the same number are refused.
    pub fn new(game_id: GameID, name: String, installed_game_modules: Vec<GameModuleInfo>) -> (r:
        Result<GameInfo, GameInstallGameModuleInfoError>)
        ensures
            distinct_modules(installed_game_modules@) ==> (r matches Ok(info) && info.game_id()
                == game_id && info.name() == name@ && info.modules() == installed_game_modules@),
            !distinct_modules(installed_game_modules@) ==> r == Err::<
                GameInfo,
                GameInstallGameModuleInfoError,
            >(GameInstallGameModuleInfoError::GameModuleAlreadyInstalled),
    {
        if !modules_are_distinct(&installed_game_modules) {
            return Err(GameInstallGameModuleInfoError::GameModuleAlreadyInstalled);
        }
        Ok(GameInfo { game_id, name, installed_game_modules })
    }

    /// The number of the game.
    pub fn get_game_id(&self) -> (r: GameID)
        ensures
            r == self.game_id(),
    {
        self.game_id
    }

    /// The name of the game.
    pub fn get_name(&self) -> (r: &str)
        ensures
            r@ == self.name(),
    {
        self.name.as_str()
    }

    /// The modules that the game needs, no two of them with the same
    /// number.
    pub fn get_installed_game_modules(&self) -> (r: &Vec<GameModuleInfo>)
        ensures
            r@ == self.modules(),
            distinct_modules(r@),
    {
        proof {
            use_type_invariant(self);
        }
        &self.installed_game_modules
    }

    /// Whether the configuration has every module that the game needs.
    pub fn is_compatible_with_config<C>(&self, game_config: &GameConfig<C>) -> (r: bool)
        ensures
            r == self.needs_only(game_config@.dom()),
    {
        let mut i: usize = 0;
        while i < self.installed_game_modules.len()
            invariant
                i <= self.installed_game_modules@.len(),
                forall|j: int|
                    0 <= j < i ==> game_config@.dom().contains(
                        (#[trigger] self.modules()[j]).game_module_id,
                    ),
            decreases self.installed_game_modules@.len() - i,
        {
            if !game_config.is_game_module_installed(
                self.installed_game_modules[i].game_module_id,
            ) {
                proof {
                    assert(!game_config@.dom().contains(self.modules()[i as int].game_module_id));
                }
                return false;
            }
            i = i + 1;
        }
        true
    }

    /// Whether the state has every module that the game needs.
    pub fn is_compatible_with_state<S>(&self, game_state: &GameState<S>) -> (r: bool)
        ensures
            r == self.needs_only(game_state@.dom()),
    {
        let mut i: usize = 0;
        while i < self.installed_game_modules.len()
            invariant
                i <= self.installed_game_modules@.len(),
                forall|j: int|
                    0 <= j < i ==> game_state@.dom().contains(
                        (#[trigger] self.modules()[j]).game_module_id,
                    ),
            decreases self.installed_game_modules@.len() - i,
        {
            if !game_state.is_game_module_installed(self.installed_game_modules[i].game_module_id) {
                proof {
                    assert(!game_state@.dom().contains(self.modules()[i as int].game_module_id));
                }
                return false;
            }
            i = i + 1;
        }
        true
    }
}

impl Default for GameInfo {
    /// The game of number zero, without a name and without modules.
    fn default() -> (r: GameInfo)
        ensures
            r.game_id() == 0,
            r.name().len() == 0,
            r.modules().len() == 0,
    {
        GameInfo { game_id: 0, name: String::new(), installed_game_modules: Vec::new() }
    }
}

impl Clone for GameInfo {
    /// The copy holds the same number, name and modules.
    fn clone(&self) -> (r: GameInfo)
        ensures
            r.same_as(*self),
    {
        proof {
            use_type_invariant(self);
        }
        let mut modules: Vec<GameModuleInfo> = Vec::new();
        let mut i: usize = 0;
        while i < self.installed_game_modules.len()
            invariant
                i <= self.installed_game_modules@.len(),
                modules@ == self.installed_game_modules@.take(i as int),
            decreases self.installed_game_modules@.len() - i,
        {
            modules.push(self.installed_game_modules[i]);
            proof {
                assert(modules@ =~= self.installed_game_modules@.take(i + 1));
            }
            i = i + 1;
        }
        proof {
            assert(self.installed_game_modules@.take(self.installed_game_modules@.len() as int)
                =~= self.installed_game_modules@);
        }
        GameInfo { game_id: self.game_id, name: self.name.clone(), installed_game_modules: modules }
    }
}

impl PartialEq for GameInfo {
    /// Two games are the same when their numbers are.
    fn eq(&self, other: &Self) -> (r: bool) {
        self.game_id == other.game_id
    }
}

impl PartialEqSpecImpl for GameInfo {
    open spec fn obeys_eq_spec() -> bool {
        true
    }

    open spec fn eq_spec(&self, other: &Self) -> bool {
        self.game_id() == other.game_id()
    }
}

/// The configuration of a game: that of each module installed in it.
pub struct GameConfig<C> {
    installed_game_modules: HashMap<GameModuleID, C>,
}

impl<C> View for GameConfig<C> {
    type V = Map<GameModuleID, C>;

    /// The configuration of each installed module, by the module's number.
    closed spec fn view(&self) -> Map<GameModuleID, C> {
        self.installed_game_modules@
    }
}

impl<C> GameConfig<C> {
    /// The configuration made of the given module configurations.
    pub fn new(installed_game_modules: HashMap<GameModuleID, C>) -> (r: Self)
        ensures
            r@ == installed_game_modules@,
    {
        GameConfig { installed_game_modules }
    }

    /// Whether the module of the given number is installed.
    pub fn is_game_module_installed(&self, game_module_id: GameModuleID) -> (r: bool)
        ensures
            r == self@.dom().contains(game_module_id),
    {
        self.installed_game_modules.contains_key(&game_module_id)
    }

    /// The configuration of the module of the given number, where it is
    /// installed.
    pub fn get_installed_game_module(&self, game_module_id: GameModuleID) -> (r: Option<&C>)
        ensures
            self@.dom().contains(game_module_id) ==> r == Some(&self@[game_module_id]),
            !self@.dom().contains(game_module_id) ==> r is None,
    {
        self.installed_game_modules.get(&game_module_id)
    }

    /// The configurations of all installed modules.
    pub fn get_installed_game_modules(&self) -> (r: &HashMap<GameModuleID, C>)
        ensures
            r@ == self@,
    {
        &self.installed_game_modules
    }
}

impl<C> Default for GameConfig<C> {
    /// The configuration with no module installed.
    fn default() -> (r: Self)
        ensures
            r@ == Map::<GameModuleID, C>::empty(),
    {
        GameConfig { installed_game_modules: HashMap::new() }
    }
}

/// The state of a game: that of each module installed in it, and whether
/// the game is joined.
pub struct GameState<S> {
    installed_game_modules: HashMap<GameModuleID, S>,
    has_been_joined: bool,
}

impl<S> View for GameState<S> {
    type V = Map<GameModuleID, S>;

    /// The state of each installed module, by the module's number.
    closed spec fn view(&self) -> Map<GameModuleID, S> {
        self.installed_game_modules@
    }
}

impl<S> GameState<S> {
    /// Whether the game is joined.
    pub closed spec fn joined(&self) -> bool {
        self.has_been_joined
    }

    /// The state made of the given module states, of a game that is not
    /// joined.
    pub fn new(installed_game_modules: HashMap<GameModuleID, S>) -> (r: Self)
        ensures
            r@ == installed_game_modules@,
            !r.joined(),
    {
        GameState { installed_game_modules, has_been_joined: false }
    }

    /// Whether the module of the given number is installed.
    pub fn is_game_module_installed(&self, game_module_id: GameModuleID) -> (r: bool)
        ensures
            r == self@.dom().contains(game_module_id),
    {
        self.installed_game_modules.contains_key(&game_module_id)
    }

    /// The state of the module of the given number, where it is installed.
    pub fn get_installed_game_module(&self, game_module_id: GameModuleID) -> (r: Option<&S>)
        ensures
            self@.dom().contains(game_module_id) ==> r == Some(&self@[game_module_id]),
            !self@.dom().contains(game_module_id) ==> r is None,
    {
        self.installed_game_modules.get(&game_module_id)
    }

    /// The states of all installed modules.
    pub fn get_installed_game_modules(&self) -> (r: &HashMap<GameModuleID, S>)
        ensures
            r@ == self@,
    {
        &self.installed_game_modules
    }

    /// Whether the game is joined.
    pub fn get_has_been_joined(&self) -> (r: bool)
        ensures
            r == self.joined(),
    {
        self.has_been_joined
    }

    /// Notes whether the game is joined; the modules stay as they are.
    pub fn set_has_been_joined(&mut self, joined: bool)
        ensures
            final(self).joined() == joined,
            final(self)@ == old(self)@,
    {
        self.has_been_joined = joined;
    }
}

impl<S> Default for GameState<S> {
    /// The state with no module installed, of a game that is not joined.
    fn default() -> (r: Self)
        ensures
            r@ == Map::<GameModuleID, S>::empty(),
            !r.joined(),
    {
        GameState { installed_game_modules: HashMap::new(), has_been_joined: false }
    }
}

#[derive(Clone, Copy, Debug, PartialEq, Eq, Structural)]
pub enum GameLoadGameConfigError {
    IncompatibleConfig,
    AlreadyLoaded,
}

#[derive(Clone, Copy, Debug, PartialEq, Eq, Structural)]
pub enum GameLoadGameStateError {
    IncompatibleState,
    GameConfigNotLoaded,
    AlreadyLoaded,
}

#[derive(Clone, Copy, Debug, PartialEq, Eq, Structural)]
pub enum GameUnloadGameConfigError {
    AlreadyUnloaded,
    GameStateNotUnloaded,
}

#[derive(Clone, Copy, Debug, PartialEq, Eq, Structural)]
pub enum GameUnloadGameStateError {
    AlreadyUnloaded,
}

#[derive(Clone, Copy, Debug, PartialEq, Eq, Structural)]
pub enum GameInstallGameModuleInfoError {
    GameConfigAlreadyLoaded,
    GameStateAlreadyLoaded,
    GameModuleAlreadyInstalled,
}

#[derive(Clone, Copy, Debug, PartialEq, Eq, Structural)]
pub enum GameInstallGameModuleConfigError {
    GameConfigNotLoaded,
    GameStateAlreadyLoaded,
    GameModuleConfigAlreadyInstalled,
    GameModuleConfigNotCompatible,
}

#[derive(Clone, Copy, Debug, PartialEq, Eq, Structural)]
pub enum GameInstallGameModuleStateError {
    GameConfigNotLoaded,
    GameStateNotLoaded,
    GameModuleStateAlreadyInstalled,
    GameModuleStateNotCompatible,
}

#[derive(Clone, Copy, Debug, PartialEq, Eq, Structural)]
pub enum GameUninstallGameModuleInfoError {
    GameConfigStillLoaded,
    GameStateStillLoaded,
    GameModuleInfoNotInstalled,
}

#[derive(Clone, Copy, Debug, PartialEq, Eq, Structural)]
pub enum GameUninstallGameModuleConfigError {
    GameConfigNotLoaded,
    GameStateStillLoaded,
    GameModuleConfigNotInstalled,
}

#[derive(Clone, Copy, Debug, PartialEq, Eq, Structural)]
pub enum GameUninstallGameModuleStateError {
    GameConfigNotLoaded,
    GameStateNotLoaded,
    GameModuleStateNotInstalled,
}

/// A game in one of its three states of loading. The configuration can be
/// loaded onto a game of which only the information is there, and the
/// state onto one with a configuration; unloading goes the same way back.
pub enum Game<C, S> {
    GameInfoLoaded { game_info: GameInfo },
    GameConfigLoaded { game_info: GameInfo, game_config: GameConfig<C> },
    GameStateLoaded { game_info: GameInfo, game_config: GameConfig<C>, game_state: GameState<S> },
}

impl<C, S> Game<C, S> {
    /// What is known of the game.
    pub open spec fn info(&self) -> GameInfo {
        match self {
            Game::GameInfoLoaded { game_info } => *game_info,
            Game::GameConfigLoaded { game_info, .. } => *game_info,
            Game::GameStateLoaded { game_info, .. } => *game_info,
        }
    }

    /// The configuration of the game, where it is loaded.
    pub open spec fn config(&self) -> Option<GameConfig<C>> {
        match self {
            Game::GameInfoLoaded { .. } => None,
            Game::GameConfigLoaded { game_config, .. } => Some(*game_config),
            Game::GameStateLoaded { game_config, .. } => Some(*game_config),
        }
    }

    /// The state of the game, where it is loaded.
    pub open spec fn state(&self) -> Option<GameState<S>> {
        match self {
            Game::GameInfoLoaded { .. } => None,
            Game::GameConfigLoaded { .. } => None,
            Game::GameStateLoaded { game_state, .. } => Some(*game_state),
        }
    }

    /// A game of which only the information is there.
    pub fn new(game_info: GameInfo) -> (game: Self)
        ensures
            game == (Game::<C, S>::GameInfoLoaded { game_info }),
    {
        Game::GameInfoLoaded { game_info }
    }

    /// Loads a configuration that has every module that the game needs
    /// onto a game without a configuration.
    pub fn load_game_config(&mut self, game_config: GameConfig<C>) -> (r: Result<
        (),
        GameLoadGameConfigError,
    >)
        ensures
            !old(self).info().needs_only(game_config@.dom()) ==> r == Err::<
                (),
                GameLoadGameConfigError,
            >(GameLoadGameConfigError::IncompatibleConfig) && *final(self) == *old(self),
            old(self).info().needs_only(game_config@.dom()) && !(*old(self) is GameInfoLoaded)
                ==> r == Err::<(), GameLoadGameConfigError>(GameLoadGameConfigError::AlreadyLoaded)
                && *final(self) == *old(self),
            old(self).info().needs_only(game_config@.dom()) && *old(self) is GameInfoLoaded ==> r
                is Ok && *final(self) == (Game::<C, S>::GameConfigLoaded {
                game_info: old(self).info(),
                game_config,
            }),
    {
        let compatible = match self {
            Game::GameInfoLoaded { game_info } => game_info.is_compatible_with_config(
                &game_config,
            ),
            Game::GameConfigLoaded { game_info, .. } => game_info.is_compatible_with_config(
                &game_config,
            ),
            Game::GameStateLoaded { game_info, .. } => game_info.is_compatible_with_config(
                &game_config,
            ),
        };
        if !compatible {
            return Err(GameLoadGameConfigError::IncompatibleConfig);
        }
        let mut current: Game<C, S> = Game::GameInfoLoaded { game_info: GameInfo::default() };
        core::mem::swap(self, &mut current);
        match current {
            Game::GameInfoLoaded { game_info } => {
                *self = Game::GameConfigLoaded { game_info, game_config };
                Ok(())
            },
            other => {
                *self = other;
                Err(GameLoadGameConfigError::AlreadyLoaded)
            },
        }
    }

    /// Loads a state that has every module that the game needs onto a game
    /// with a configuration and without a state.
    pub fn load_game_state(&mut self, game_state: GameState<S>) -> (r: Result<
        (),
        GameLoadGameStateError,
    >)
        ensures
            !old(self).info().needs_only(game_state@.dom()) ==> r == Err::<
                (),
                GameLoadGameStateError,
            >(GameLoadGameStateError::IncompatibleState) && *final(self) == *old(self),
            old(self).info().needs_only(game_state@.dom()) && *old(self) is GameInfoLoaded ==> r
                == Err::<(), GameLoadGameStateError>(GameLoadGameStateError::GameConfigNotLoaded)
                && *final(self) == *old(self),
            old(self).info().needs_only(game_state@.dom()) && *old(self) is GameStateLoaded ==> r
                == Err::<(), GameLoadGameStateError>(GameLoadGameStateError::AlreadyLoaded)
                && *final(self) == *old(self),
            old(self).info().needs_only(game_state@.dom()) && *old(self) is GameConfigLoaded ==> r
                is Ok && *final(self) == (Game::<C, S>::GameStateLoaded {
                game_info: old(self).info(),
                game_config: old(self).config()->0,
                game_state,
            }),
    {
        let compatible = match self {
            Game::GameInfoLoaded { game_info } => game_info.is_compatible_with_state(&game_state),
            Game::GameConfigLoaded { game_info, .. } => game_info.is_compatible_with_state(
                &game_state,
            ),
            Game::GameStateLoaded { game_info, .. } => game_info.is_compatible_with_state(
                &game_state,
            ),
        };
        if !compatible {
            return Err(GameLoadGameStateError::IncompatibleState);
        }
        let mut current: Game<C, S> = Game::GameInfoLoaded { game_info: GameInfo::default() };
        core::mem::swap(self, &mut current);
        match current {
            Game::GameInfoLoaded { game_info } => {
                *self = Game::GameInfoLoaded { game_info };
                Err(GameLoadGameStateError::GameConfigNotLoaded)
            },
            Game::GameConfigLoaded { game_info, game_config } => {
                *self = Game::GameStateLoaded { game_info, game_config, game_state };
                Ok(())
            },
            other => {
                *self = other;
                Err(GameLoadGameStateError::AlreadyLoaded)
            },
        }
    }

    /// Unloads the configuration of a game that has one and no state.
    pub fn unload_game_config(&mut self) -> (r: Result<(), GameUnloadGameConfigError>)
        ensures
            *old(self) is GameInfoLoaded ==> r == Err::<(), GameUnloadGameConfigError>(
                GameUnloadGameConfigError::AlreadyUnloaded,
            ) && *final(self) == *old(self),
            *old(self) is GameStateLoaded ==> r == Err::<(), GameUnloadGameConfigError>(
                GameUnloadGameConfigError::GameStateNotUnloaded,
            ) && *final(self) == *old(self),
            *old(self) is GameConfigLoaded ==> r is Ok && *final(self) == (Game::<
                C,
                S,
            >::GameInfoLoaded { game_info: old(self).info() }),
    {
        let mut current: Game<C, S> = Game::GameInfoLoaded { game_info: GameInfo::default() };
        core::mem::swap(self, &mut current);
        match current {
            Game::GameInfoLoaded { game_info } => {
                *self = Game::GameInfoLoaded { game_info };
                Err(GameUnloadGameConfigError::AlreadyUnloaded)
            },
            Game::GameConfigLoaded { game_info, .. } => {
                *self = Game::GameInfoLoaded { game_info };
                Ok(())
            },
            other => {
                *self = other;
                Err(GameUnloadGameConfigError::GameStateNotUnloaded)
            },
        }
    }

    /// Unloads the state of a game that has one.
    pub fn unload_game_state(&mut self) -> (r: Result<(), GameUnloadGameStateError>)
        ensures
            !(*old(self) is GameStateLoaded) ==> r == Err::<(), GameUnloadGameStateError>(
                GameUnloadGameStateError::AlreadyUnloaded,
            ) && *final(self) == *old(self),
            *old(self) is GameStateLoaded ==> r is Ok && *final(self) == (Game::<
                C,
                S,
            >::GameConfigLoaded {
                game_info: old(self).info(),
                game_config: old(self).config()->0,
            }),
    {
        let mut current: Game<C, S> = Game::GameInfoLoaded { game_info: GameInfo::default() };
        core::mem::swap(self, &mut current);
        match current {
            Game::GameStateLoaded { game_info, game_config, .. } => {
                *self = Game::GameConfigLoaded { game_info, game_config };
                Ok(())
            },
            other => {
                *self = other;
                Err(GameUnloadGameStateError::AlreadyUnloaded)
            },
        }
    }

    /// Notes on a game with a state whether it is joined, and tells whether
    /// there was a state to note it on. Everything else stays as it is.
    pub fn set_joined(&mut self, joined: bool) -> (noted: bool)
        ensures
            noted == (*old(self) is GameStateLoaded),
            !noted ==> *final(self) == *old(self),
            noted ==> {
                &&& *final(self) is GameStateLoaded
                &&& final(self).info() == old(self).info()
                &&& final(self).config() == old(self).config()
                &&& final(self).state()->0@ == old(self).state()->0@
                &&& final(self).state()->0.joined() == joined
            },
    {
        let mut current: Game<C, S> = Game::GameInfoLoaded { game_info: GameInfo::default() };
        core::mem::swap(self, &mut current);
        match current {
            Game::GameStateLoaded { game_info, game_config, game_state } => {
                let mut game_state = game_state;
                game_state.set_has_been_joined(joined);
                *self = Game::GameStateLoaded { game_info, game_config, game_state };
                true
            },
            other => {
                *self = other;
                false
            },
        }
    }

    /// A copy of what is known of the game.
    pub fn get_game_info(&self) -> (r: GameInfo)
        ensures
            r.same_as(self.info()),
    {
        match self {
            Game::GameInfoLoaded { game_info } => game_info.clone(),
            Game::GameConfigLoaded { game_info, .. } => game_info.clone(),
            Game::GameStateLoaded { game_info, .. } => game_info.clone(),
        }
    }

    /// The configuration of the game, where it is loaded.
    pub fn get_game_config(&self) -> (r: Option<&GameConfig<C>>)
        ensures
            self.config() matches Some(config) ==> r == Some(&config),
            self.config() is None ==> r is None,
    {
        match self {
            Game::GameInfoLoaded { .. } => None,
            Game::GameConfigLoaded { game_config, .. } => Some(game_config),
            Game::GameStateLoaded { game_config, .. } => Some(game_config),
        }
    }

    /// The state of the game, where it is loaded.
    pub fn get_game_state(&self) -> (r: Option<&GameState<S>>)
        ensures
            self.state() matches Some(state) ==> r == Some(&state),
            self.state() is None ==> r is None,
    {
        match self {
            Game::GameInfoLoaded { .. } => None,
            Game::GameConfigLoaded { .. } => None,
            Game::GameStateLoaded { game_state, .. } => Some(game_state),
        }
    }
}

/// Why a game could not be reached through its handle.
#[derive(Clone, Copy, Debug, PartialEq, Eq, Structural)]
pub enum GameHandleAccessError {
    Locked,
    Poisoned,
}

#[derive(Clone, Copy, Debug, PartialEq, Eq, Structural)]
pub enum GameManagerRegisterGameHandleError {
    GameAlreadyRegistered,
    MutexLocked,
    MutexPoisoned,
    AllGameIDsInUse,
}

#[derive(Clone, Copy, Debug, PartialEq, Eq, Structural)]
pub enum GameManagerUnregisterGameHandleError {
    GameNotRegistered,
}

#[derive(Clone, Copy, Debug, PartialEq, Eq, Structural)]
pub enum GameManagerGetGamesError {
    MutexLocked,
    MutexPoisoned,
}

#[derive(Clone, Copy, Debug, PartialEq, Eq, Structural)]
pub enum GameManagerDeleteGameError {
    GameDoesNotExist,
}

#[derive(Clone, Copy, Debug, PartialEq, Eq, Structural)]
pub enum GameManagerJoinGameError {
    GameDoesNotExist,
    GameAlreadyJoined,
    GameConfigNotLoaded,
    GameStateNotLoaded,
    MutexLocked,
    MutexPoisoned,
}

#[derive(Clone, Copy, Debug, PartialEq, Eq, Structural)]
pub enum GameManagerLeaveGameError {
    GameNotJoined,
    MutexLocked,
    MutexPoisoned,
}

/// The error of registering a game that could not be reached.
pub fn register_error_of(error: GameHandleAccessError) -> (r: GameManagerRegisterGameHandleError)
    ensures
        error == GameHandleAccessError::Locked ==> r
            == GameManagerRegisterGameHandleError::MutexLocked,
        error == GameHandleAccessError::Poisoned ==> r
            == GameManagerRegisterGameHandleError::MutexPoisoned,
{
    match error {
        GameHandleAccessError::Locked => GameManagerRegisterGameHandleError::MutexLocked,
        GameHandleAccessError::Poisoned => GameManagerRegisterGameHandleError::MutexPoisoned,
    }
}

/// The error of listing the games when one could not be reached.
pub fn get_games_error_of(error: GameHandleAccessError) -> (r: GameManagerGetGamesError)
    ensures
        error == GameHandleAccessError::Locked ==> r == GameManagerGetGamesError::MutexLocked,
        error == GameHandleAccessError::Poisoned ==> r == GameManagerGetGamesError::MutexPoisoned,
{
    match error {
        GameHandleAccessError::Locked => GameManagerGetGamesError::MutexLocked,
        GameHandleAccessError::Poisoned => GameManagerGetGamesError::MutexPoisoned,
    }
}

/// The error of joining a game that could not be reached.
pub fn join_error_of(error: GameHandleAccessError) -> (r: GameManagerJoinGameError)
    ensures
        error == GameHandleAccessError::Locked ==> r == GameManagerJoinGameError::MutexLocked,
        error == GameHandleAccessError::Poisoned ==> r == GameManagerJoinGameError::MutexPoisoned,
{
    match error {
        GameHandleAccessError::Locked => GameManagerJoinGameError::MutexLocked,
        GameHandleAccessError::Poisoned => GameManagerJoinGameError::MutexPoisoned,
    }
}

/// The error of leaving a game that could not be reached.
pub fn leave_error_of(error: GameHandleAccessError) -> (r: GameManagerLeaveGameError)
    ensures
        error == GameHandleAccessError::Locked ==> r == GameManagerLeaveGameError::MutexLocked,
        error == GameHandleAccessError::Poisoned ==> r == GameManagerLeaveGameError::MutexPoisoned,
{
    match error {
        GameHandleAccessError::Locked => GameManagerLeaveGameError::MutexLocked,
        GameHandleAccessError::Poisoned => GameManagerLeaveGameError::MutexPoisoned,
    }
}

/// The books of a manager of games: the handle of each registered game by
/// the game's number, the numbers to give out next, and the game that is
/// joined. A number that was given back is given out again before a new
/// one; the last number of all is never given out.
pub struct GameManager<H> {
    registered_game_handles: HashMap<GameID, H>,
    new_game_id: GameID,
    recycled_game_ids: Vec<GameID>,
    currently_joined_game: Option<GameID>,
}

impl<H> GameManager<H> {
    /// The handle of each registered game.
    pub closed spec fn handles(&self) -> Map<GameID, H> {
        self.registered_game_handles@
    }

    /// The first number that was never given out.
    pub closed spec fn next_id(&self) -> GameID {
        self.new_game_id
    }

    /// The numbers that were given back, the last of them first to be
    /// given out again.
    pub closed spec fn recycled(&self) -> Seq<GameID> {
        self.recycled_game_ids@
    }

    /// The number of the game that is joined.
    pub closed spec fn joined(&self) -> Option<GameID> {
        self.currently_joined_game
    }

    /// The books tell the same but for the recycled numbers and the next
    /// new one.
    pub open spec fn same_games_as(&self, other: &Self) -> bool {
        &&& self.handles() == other.handles()
        &&& self.joined() == other.joined()
    }

    /// The books tell the same numbers to give out.
    pub open spec fn same_ids_as(&self, other: &Self) -> bool {
        &&& self.next_id() == other.next_id()
        &&& self.recycled() == other.recycled()
    }

    /// Books with no game, in which the numbers start at one.
    pub fn new() -> (manager: Self)
        ensures
            manager.handles() == Map::<GameID, H>::empty(),
            manager.next_id() == 1,
            manager.recycled().len() == 0,
            manager.joined() is None,
    {
        GameManager {
            registered_game_handles: HashMap::new(),
            new_game_id: 1,
            recycled_game_ids: Vec::new(),
            currently_joined_game: None,
        }
    }

    /// Registers the handle of the game of the given number, unless a game
    /// of that number is registered already.
    pub fn register_game_handle(&mut self, game_id: GameID, game_handle: H) -> (r: Result<
        (),
        GameManagerRegisterGameHandleError,
    >)
        ensures
            final(self).same_ids_as(old(self)),
            final(self).joined() == old(self).joined(),
            old(self).handles().dom().contains(game_id) ==> r == Err::<
                (),
                GameManagerRegisterGameHandleError,
            >(GameManagerRegisterGameHandleError::GameAlreadyRegistered) && final(self).handles()
                == old(self).handles(),
            !old(self).handles().dom().contains(game_id) ==> r is Ok && final(self).handles()
                == old(self).handles().insert(game_id, game_handle),
    {
        if self.registered_game_handles.contains_key(&game_id) {
            return Err(GameManagerRegisterGameHandleError::GameAlreadyRegistered);
        }
        self.registered_game_handles.insert(game_id, game_handle);
        Ok(())
    }

    /// Takes the game of the given number off the books and keeps its
    /// number to be given out again.
    pub fn unregister_game_handle(&mut self, game_id: GameID) -> (r: Result<
        (),
        GameManagerUnregisterGameHandleError,
    >)
        ensures
            final(self).next_id() == old(self).next_id(),
            final(self).joined() == old(self).joined(),
            old(self).handles().dom().contains(game_id) ==> {
                &&& r is Ok
                &&& final(self).handles() == old(self).handles().remove(game_id)
                &&& final(self).recycled() == old(self).recycled().push(game_id)
            },
            !old(self).handles().dom().contains(game_id) ==> r == Err::<
                (),
                GameManagerUnregisterGameHandleError,
            >(GameManagerUnregisterGameHandleError::GameNotRegistered) && final(self).handles()
                == old(self).handles() && final(self).recycled() == old(self).recycled(),
    {
        match self.registered_game_handles.remove(&game_id) {
            Some(_) => {
                self.recycle_used_game_id(game_id);
                Ok(())
            },
            None => Err(GameManagerUnregisterGameHandleError::GameNotRegistered),
        }
    }

    /// Gives out a number for a new game: the last one that was given
    /// back, or else the next new one. Nothing is given out once the new
    /// numbers have run out.
    pub fn get_unused_game_id(&mut self) -> (r: Option<GameID>)
        ensures
            final(self).same_games_as(old(self)),
            old(self).recycled().len() > 0 ==> {
                &&& r == Some(old(self).recycled().last())
                &&& final(self).recycled() == old(self).recycled().drop_last()
                &&& final(self).next_id() == old(self).next_id()
            },
            old(self).recycled().len() == 0 && old(self).next_id() < u64::MAX ==> {
                &&& r == Some(old(self).next_id())
                &&& final(self).next_id() == old(self).next_id() + 1
                &&& final(self).recycled() == old(self).recycled()
            },
            old(self).recycled().len() == 0 && old(self).next_id() == u64::MAX ==> r is None
                && final(self).same_ids_as(old(self)),
    {
        match self.recycled_game_ids.pop() {
            Some(game_id) => Some(game_id),
            None => {
                if self.new_game_id == u64::MAX {
                    return None;
                }
                let game_id = self.new_game_id;
                self.new_game_id = self.new_game_id + 1;
                Some(game_id)
            },
        }
    }

    /// Keeps a number to be given out again.
    pub fn recycle_used_game_id(&mut self, game_id: GameID)
        ensures
            final(self).same_games_as(old(self)),
            final(self).next_id() == old(self).next_id(),
            final(self).recycled() == old(self).recycled().push(game_id),
    {
        self.recycled_game_ids.push(game_id);
    }

    /// The number of the game that is joined.
    pub fn get_currently_joined_game(&self) -> (r: Option<GameID>)
        ensures
            r == self.joined(),
    {
        self.currently_joined_game
    }

    /// The handle of the game of the given number, where it is registered.
    pub fn get_game_handle(&self, game_id: GameID) -> (r: Option<&H>)
        ensures
            self.handles().dom().contains(game_id) ==> r == Some(&self.handles()[game_id]),
            !self.handles().dom().contains(game_id) ==> r is None,
    {
        self.registered_game_handles.get(&game_id)
    }

    /// The handles of all registered games.
    pub fn get_game_handles(&self) -> (r: &HashMap<GameID, H>)
        ensures
            r@ == self.handles(),
    {
        &self.registered_game_handles
    }

    /// Takes the game of the given number off the books and keeps its
    /// number to be given out again.
    pub fn delete_game(&mut self, game_id: GameID) -> (r: Result<(), GameManagerDeleteGameError>)
        ensures
            final(self).next_id() == old(self).next_id(),
            final(self).joined() == old(self).joined(),
            old(self).handles().dom().contains(game_id) ==> {
                &&& r is Ok
                &&& final(self).handles() == old(self).handles().remove(game_id)
                &&& final(self).recycled() == old(self).recycled().push(game_id)
            },
            !old(self).handles().dom().contains(game_id) ==> {
                &&& r == Err::<(), GameManagerDeleteGameError>(
                    GameManagerDeleteGameError::GameDoesNotExist,
                )
                &&& final(self).handles() == old(self).handles()
                &&& final(self).recycled() == old(self).recycled()
            },
    {
        match self.registered_game_handles.remove(&game_id) {
            Some(_) => {
                self.recycle_used_game_id(game_id);
                Ok(())
            },
            None => Err(GameManagerDeleteGameError::GameDoesNotExist),
        }
    }

    /// Whether the game of the given number may be joined as far as the
    /// books tell: it is registered, and no game is joined.
    pub fn can_join_game(&self, game_id: GameID) -> (r: Result<(), GameManagerJoinGameError>)
        ensures
            !self.handles().dom().contains(game_id) ==> r == Err::<(), GameManagerJoinGameError>(
                GameManagerJoinGameError::GameDoesNotExist,
            ),
            self.handles().dom().contains(game_id) && self.joined() is Some ==> r == Err::<
                (),
                GameManagerJoinGameError,
            >(GameManagerJoinGameError::GameAlreadyJoined),
            self.handles().dom().contains(game_id) && self.joined() is None ==> r is Ok,
    {
        if !self.registered_game_handles.contains_key(&game_id) {
            return Err(GameManagerJoinGameError::GameDoesNotExist);
        }
        if self.currently_joined_game.is_some() {
            return Err(GameManagerJoinGameError::GameAlreadyJoined);
        }
        Ok(())
    }

    /// Joins the game of the given number, which is handed in as it was
    /// found behind the game's handle. The game has to be registered, no
    /// game may be joined, and the game's state has to be loaded; then the
    /// game is noted as joined, in the books and on its state.
    pub fn join_game<C, S>(&mut self, game_id: GameID, game: &mut Game<C, S>) -> (r: Result<
        (),
        GameManagerJoinGameError,
    >)
        ensures
            final(self).same_ids_as(old(self)),
            final(self).handles() == old(self).handles(),
            r is Err ==> final(self).joined() == old(self).joined() && *final(game) == *old(game),
            !old(self).handles().dom().contains(game_id) ==> r == Err::<
                (),
                GameManagerJoinGameError,
            >(GameManagerJoinGameError::GameDoesNotExist),
            old(self).handles().dom().contains(game_id) && old(self).joined() is Some ==> r
                == Err::<(), GameManagerJoinGameError>(GameManagerJoinGameError::GameAlreadyJoined),
            old(self).handles().dom().contains(game_id) && old(self).joined() is None && *old(game)
                is GameInfoLoaded ==> r == Err::<(), GameManagerJoinGameError>(
                GameManagerJoinGameError::GameConfigNotLoaded,
            ),
            old(self).handles().dom().contains(game_id) && old(self).joined() is None && *old(game)
                is GameConfigLoaded ==> r == Err::<(), GameManagerJoinGameError>(
                GameManagerJoinGameError::GameStateNotLoaded,
            ),
            old(self).handles().dom().contains(game_id) && old(self).joined() is None && *old(game)
                is GameStateLoaded ==> {
                &&& r is Ok
                &&& final(self).joined() == Some(game_id)
                &&& *final(game) is GameStateLoaded
                &&& final(game).info() == old(game).info()
                &&& final(game).config() == old(game).config()
                &&& final(game).state()->0@ == old(game).state()->0@
                &&& final(game).state()->0.joined()
            },
    {
        match self.can_join_game(game_id) {
            Err(e) => {
                return Err(e);
            },
            Ok(_) => {},
        }
        if !game.set_joined(true) {
            return match game {
                Game::GameInfoLoaded { .. } => Err(GameManagerJoinGameError::GameConfigNotLoaded),
                _ => Err(GameManagerJoinGameError::GameStateNotLoaded),
            };
        }
        self.currently_joined_game = Some(game_id);
        Ok(())
    }

    /// Leaves the joined game, which is handed in as it was found behind
    /// its handle: the game is noted as not joined, in the books and on its
    /// state. A joined game always has its state loaded.
    pub fn leave_game<C, S>(&mut self, game: &mut Game<C, S>) -> (r: Result<
        (),
        GameManagerLeaveGameError,
    >)
        requires
            old(self).joined() is Some ==> *old(game) is GameStateLoaded,
        ensures
            final(self).same_ids_as(old(self)),
            final(self).handles() == old(self).handles(),
            old(self).joined() is None ==> r == Err::<(), GameManagerLeaveGameError>(
                GameManagerLeaveGameError::GameNotJoined,
            ) && final(self).joined() is None && *final(game) == *old(game),
            old(self).joined() is Some ==> {
                &&& r is Ok
                &&& final(self).joined() is None
                &&& *final(game) is GameStateLoaded
                &&& final(game).info() == old(game).info()
                &&& final(game).config() == old(game).config()
                &&& final(game).state()->0@ == old(game).state()->0@
                &&& !final(game).state()->0.joined()
            },
    {
        if self.currently_joined_game.is_none() {
            return Err(GameManagerLeaveGameError::GameNotJoined);
        }
        game.set_joined(false);
        self.currently_joined_game = None;
        Ok(())
    }
}

} // verus!
