//! Host-identity facts for a program running inside a web browser.
//!
//! A browser exposes no native OS identity APIs; what can be known about the
//! host comes from a handful of strings the navigation context provides. The
//! heart of this crate is a heuristic parser that extracts structured
//! platform, distribution and browser identity from the semi-structured
//! user-agent string, with explicit fallback labels wherever a family is not
//! recognized. Companion lookups (hostname from the page location, declared
//! languages from the navigator) and fixed facts (user name, desktop
//! environment, word width) round out the surface.
//!
//! Every function here is pure: it takes the raw browser-provided values as
//! plain arguments and never performs I/O itself. The thin layer that reads
//! those values from the browser lives outside this crate.

pub mod agent;
pub mod facts;
pub mod langs;
pub mod text;

pub use agent::devicename;
pub use agent::distro;
pub use agent::platform;
pub use facts::Arch;
pub use facts::Platform;
pub use langs::LangIter;
pub use langs::lang;
pub use facts::DesktopEnv;
pub use facts::Error;
pub use facts::arch;
pub use facts::desktop_env;
pub use facts::hostname;
pub use facts::realname;
pub use facts::username;
