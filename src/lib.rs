//! A project launcher's core: a layered configuration model, a namespace of
//! launchable items, keyword resolution and the interactive matching engine.
pub mod config;
pub mod dispatch;
pub mod launch;
pub mod manager;
pub mod matcher;
pub mod merge;
pub mod order;
pub mod paths;
pub mod resolver;
pub mod shortcuts;
pub mod text;
pub mod url;
