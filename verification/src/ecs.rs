//! Entities and their components: what identifies them, and how keeping
//! the entities of a chunk can fail.

use vstd::prelude::*;
use std::any::TypeId;

verus! {

/// The number by which a component is known.
pub type ComponentID = u64;

/// The type by which a module is known.
pub type ModuleID = TypeId;

/// Why an entity could not be registered with a chunk.
#[derive(Clone, Copy, Debug, PartialEq, Eq, Structural)]
pub enum ChunkRegisterEntityError {
    EntityAlreadyRegistered,
}

/// Why an entity could not be unregistered from a chunk.
#[derive(Clone, Copy, Debug, PartialEq, Eq, Structural)]
pub enum ChunkUnregisterEntityError {
    EntityNotRegistered,
}

/// Why an entity could not be had from a chunk.
#[derive(Clone, Copy, Debug, PartialEq, Eq, Structural)]
pub enum ChunkGetEntityError {
    EntityNotRegistered,
}

/// A component of an entity.
pub trait Component: Send + Sync {
    /// The type of the component.
    fn get_component_type_id(&self) -> TypeId;

    /// The number of the component.
    fn get_component_id(&self) -> ComponentID;
}

/// A module of the game.
pub trait Module: Send + Sync {
    /// The type of the module.
    fn get_component_type_id(&self) -> TypeId;
}

} // verus!
