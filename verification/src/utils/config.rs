//! The bot's configuration, as read from its configuration file.

use vstd::prelude::*;

verus! {

/// The `[bot]` section.
pub struct Bot {
    pub name: Option<String>,
    pub prefix: String,
    pub brief: Option<String>,
    pub token_variable: String,
}

/// The `[code_executor]` section.
pub struct CodeExecutor {
    pub trigger_emoji: String,
}

/// The `[compiler_rextester]` section.
pub struct CompilerRextester {
    pub enabled: bool,
    pub langs_path: String,
    pub args_path: String,
}

/// The `[compiler_tio]` section.
pub struct CompilerTio {
    pub enabled: bool,
    pub langs_path: String,
    pub aliases_path: String,
}

/// The `[compiler_wandbox]` section.
pub struct CompilerWandbox {
    pub enabled: bool,
    pub langs_path: String,
    pub aliases_path: String,
}

/// The `[mongodb_trigger_emoji]` section.
pub struct MongdbTriggerEmoji {
    pub enabled: bool,
    pub uri_variable: String,
    pub database: String,
    pub collection: String,
}

/// The whole configuration.
pub struct Config {
    pub bot: Bot,
    pub code_executor: CodeExecutor,
    pub mongodb_trigger_emoji: MongdbTriggerEmoji,
    pub compiler_rextester: CompilerRextester,
    pub compiler_tio: CompilerTio,
    pub compiler_wandbox: CompilerWandbox,
}

} // verus!
