//! A resolver for module requests: from a referrer directory and a request
//! string to the absolute path of the file that the request denotes.
//!
//! The resolver never touches the file system. It reads what it has been
//! told of it, and where that is not enough, its error names the path or
//! the directory of which it needs to know more.

pub mod description;
pub mod error;
pub mod fs;
pub mod ignore;
pub mod info;
pub mod kind;
pub mod laws;
pub mod map;
pub mod options;
pub mod parse;
pub mod path;
pub mod pipeline;
pub mod plugin;
pub mod resolve;
pub mod resolver;
pub mod smol;
pub mod stability;
pub mod text;
pub mod tsconfig;

pub use description::{DescriptionData, Value};
pub use error::{ErrorKind, Fault, ResolverError};
pub use fs::{Entry, EntryKind, ManifestSlot, ResolverSafeCache, ResolverUnsafeCache};
pub use info::{ResolverInfo, ResolverResult, ResolverStats};
pub use kind::PathKind;
pub use options::{AliasMap, EnforceExtension, ResolverOptions};
pub use parse::{parse, Request};
pub use plugin::main_field::MainFieldPlugin;
pub use resolve::{get_module_name_from_request, is_resolve_self};
pub use resolver::Resolver;
