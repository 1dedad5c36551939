//! Verified core game-server logic: chat channels and talk guards, combat
//! formulas and area shapes, containers and their client windows, and the
//! kite-scenario script format.

pub mod ids;
pub mod aid_move;
pub mod maps;
pub mod text;
pub mod chat;
pub mod chat_talk;
pub mod chase_trace;
pub mod combat;
pub mod condition;
pub mod condition_blob;
pub mod config;
pub mod conjure;
pub mod container;
pub mod container_ops;
pub mod creature;
pub mod kite_scenario;
pub mod path_scenario;
