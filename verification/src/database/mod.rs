pub mod trigger_emoji;
