//! Configuration sources.
pub mod env;
pub mod table;
pub mod cli;
pub mod dotenv;
pub mod ini;
pub mod embedded;
pub mod document;
pub mod formats;

pub use cli::CliSource;
pub use document::{DocNode, JsonSource, PlistSource, RonSource, TomlSource, YamlSource};
pub use dotenv::DotenvSource;
pub use embedded::EmbeddedSource;
pub use ini::IniSource;
