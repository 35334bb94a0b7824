//! A runtime-agnostic plugin host.
//!
//! Applications register named host capabilities in a [`context::HostContext`],
//! load plugin code from heterogeneous sources ([`source::PluginSource`]:
//! inline text, a file path, raw bytes), and invoke named functions inside
//! loaded plugins, exchanging only the boundary [`value::Value`] type.
//! Concrete execution engines are pluggable backends behind the
//! [`runtime::Runtime`] trait; plugin lifecycle and identity belong to the
//! managers implementing [`manager::PluginManager`]. Engines that must stay
//! on one thread are driven through the command protocol of [`actor`].

pub mod actor;
pub mod context;
pub mod convert;
pub mod deno;
pub mod error;
pub mod host_function;
pub mod manager;
pub mod managers;
pub mod runtime;
pub mod source;
pub mod value;
