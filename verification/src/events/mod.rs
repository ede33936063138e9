pub mod code_executor;
pub mod run;
