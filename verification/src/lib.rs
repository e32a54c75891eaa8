//! A small entity-component library together with the decision logic of a
//! Vulkan renderer, with every rule stated as a contract and proved.

pub mod assoc;
pub mod components;
pub mod descriptor;
pub mod entity;
pub mod frame;
pub mod hex;
pub mod input;
pub mod obj_asset;
pub mod pipeline;
pub mod query;
pub mod queue_families;
pub mod resource;
pub mod storage;
pub mod surface;
pub mod system;
pub mod text;
pub mod world;
