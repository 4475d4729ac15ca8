//! A task runner's core: it reads a tree-structured task-definition
//! document into a typed model of tasks, variables and actions, resolves
//! variables (literal or shell-sourced) through a small `{{ name }}`
//! templating language, and runs each task's actions as a state machine
//! that asks its caller to perform every process execution and directory
//! change.

pub mod node;
pub mod parser;
pub mod runner;
pub mod tasks;
pub mod templater;
pub mod util;
