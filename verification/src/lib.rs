use vstd::prelude::*;

pub mod brain;
pub mod domain;
pub mod durable;
pub mod fleet;
pub mod gateway;
pub mod intelligence;
pub mod learning;
pub mod lerobot;
pub mod ncm;
pub mod nori;
pub mod package;
pub mod profile_manifest;
pub mod protocol;
pub mod proving;
pub mod reliable;
pub mod sdk;
pub mod ros2;
pub mod sense;
pub mod skills;
pub mod structure;
pub mod text;
pub mod textmap;
pub mod watchdog;
