//! A reference-counted object runtime with typed handles and owned references.
//!
//! Objects live in a [`foreign::Runtime`]: a table that gives every object an
//! address, a type tag, a retain count and a state. Code outside the runtime
//! never holds an object, only a handle to one ([`cf::Type`] and the typed
//! views built on it) or an owned reference ([`arc::R`]), which accounts for
//! exactly one retain count from the moment it is handed out until it is
//! released.
//!
//! The runtime keeps a ledger of the owned references that are outstanding
//! and a log of every call that changed a count. Its invariant,
//! [`foreign::Heap::wf`], ties the three together: the retain count of an
//! object is the number of outstanding references to it, and the log shows
//! for every reference that is gone exactly one release. Every function that
//! changes the runtime keeps the invariant.
//!
//! Not every reference is held by code: an array keeps its elements, and a
//! sample buffer keeps its block of data, each through a reference of its
//! own, which it gives back when it goes.
//!
//! What a handle refers to is checked where it is used: a function that reads
//! through a handle asks that the object be there and be of the type that the
//! view stands for, and [`cf::Type::try_as`] is the way to find out.
//!
//! - [`arc`]: owned references and the two capabilities behind them.
//! - [`foreign`]: the object table and its steps.
//! - [`cf`]: handles, type tags, boxed numbers and strings, arrays.
//! - [`cm`]: sample buffers and what travels with them.
//! - [`core_audio`]: descriptions of audio taps.
//! - [`cat`], [`cv`], [`ns`], [`os`]: the plain values that the objects hold.
pub mod arc;
pub mod cat;
pub mod cf;
pub mod cm;
pub mod core_audio;
pub mod cv;
pub mod foreign;
pub mod ns;
pub mod os;
