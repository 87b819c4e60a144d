//! The decisions of an application that is shown in a window of the layer shell.
//!
//! * [`startup`]: what an application is, and how its program starts
//! * [`event`] and [`event_loop`]: the events of the layer shell, and the order in which one
//!   context handles them
//! * [`application`]: the context, which handles an event step by step
//! * [`refresh`], [`dispatch`], [`update`] and [`action`]: the parts that handling consists of
//! * [`user_interface`]: the interfaces that are built from an application
//! * [`handling`] and [`feeding`]: what holds of whole events and of rows of them
//!
//! What only the runtime can do is left to the caller: the library says what is to be done next,
//! and is told what came of it.
pub mod action;
pub mod application;
pub mod dispatch;
pub mod event;
pub mod event_loop;
pub mod feeding;
pub mod handling;
mod outside;
pub mod refresh;
pub mod startup;
pub mod update;
pub mod user_interface;
