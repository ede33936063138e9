use codegod::commands::misc::{setemoji_outcome, setemoji_prompt};
use codegod::compilers::{rextester, wandbox};
use codegod::database::trigger_emoji::{emoji_write, EmojiWrite};
use codegod::events::code_executor::{
    block_after_reply, choose_block, compiler_choice, notice_text, trigger_for, Notice, delivery, describe_output, is_trash, resolve_language,
    rextester_outcome, rextester_target, run_settings, should_run, split_message, tio_outcome,
    tio_payload, unsupported_language_message, wandbox_outcome, wandbox_request, Compiler,
    Delivery,
};
use codegod::utils::parser::parse_args;
use codegod::{StringHashMap, StringHashSet};
use std::collections::HashMap;

#[test]
fn run_gate() {
    assert!(should_run(false, "▶", "▶"));
    assert!(!should_run(true, "▶", "▶"));
    assert!(!should_run(false, "✅", "▶"));
    assert!(is_trash("🗑️"));
    assert!(!is_trash("🗑"));
}

#[test]
fn trigger_is_stored_emoji_or_play_sign() {
    assert_eq!(trigger_for(None), "▶");
    assert_eq!(trigger_for(Some(String::from("🚀"))), "🚀");
    assert!(should_run(false, "▶", &trigger_for(None)));
    assert!(!should_run(false, "▶", &trigger_for(Some(String::from("🚀")))));
    assert!(should_run(false, "🚀", &trigger_for(Some(String::from("🚀")))));
}

#[test]
fn block_after_reply_falls_back_to_first() {
    assert_eq!(block_after_reply(None, 3).unwrap(), 0);
    assert_eq!(block_after_reply(Some("3"), 3).unwrap(), 2);
    assert_eq!(
        block_after_reply(Some("x"), 3).err().unwrap(),
        "Sorry, that's an invalid response. Cancelled."
    );
    assert_eq!(
        block_after_reply(Some("5"), 3).err().unwrap(),
        "Sorry, that's too high. Cancelled."
    );
}

#[test]
fn notices() {
    assert_eq!(
        notice_text(&Notice::ArgumentParser(String::from("no value"))),
        "**ArgumentParserError:** no value"
    );
    assert_eq!(
        notice_text(&Notice::CodeblockParser(String::from("bad"))),
        "**CodeblockParserError:** bad"
    );
    assert_eq!(
        notice_text(&Notice::WhichBlock(12)),
        "Which one do you want to run? Enter number from 1 to 12."
    );
    assert_eq!(
        notice_text(&Notice::NoLanguage),
        "Looks like you forgot to mention the language lol."
    );
    assert_eq!(notice_text(&Notice::Client(String::from("x"))), "**ClientError:** x");
    assert_eq!(
        notice_text(&Notice::TioRequest(String::from("y"))),
        "failed to do the tio request y"
    );
    assert_eq!(
        notice_text(&Notice::ServerStatus),
        "**ServerError:** returned non Ok status."
    );
    assert_eq!(notice_text(&Notice::InvalidCompiler), "invalid compiler name");
    assert_eq!(notice_text(&Notice::SendFailed), "Failed to send the message");
}

#[test]
fn message_split() {
    let (a, r) = split_message("-l py --clean ```py\nx```");
    assert_eq!(a, "-l py --clean ");
    assert_eq!(r, "```py\nx```");
    let (a, r) = split_message("no fence");
    assert_eq!(a, "");
    assert_eq!(r, "no fence");
}

#[test]
fn block_choice() {
    assert_eq!(choose_block("2", 3).unwrap(), 1);
    assert_eq!(choose_block("+3", 3).unwrap(), 2);
    assert_eq!(choose_block("4", 3).err().unwrap(), "Sorry, that's too high. Cancelled.");
    assert_eq!(
        choose_block("69", 3).err().unwrap(),
        "Sorry, that's too high but, nice anyway. Cancelled."
    );
    assert_eq!(
        choose_block(" 2", 3).err().unwrap(),
        "Sorry, that's an invalid response. Cancelled."
    );
}

#[test]
fn settings_defaults_and_overrides() {
    let (params, _, _) = parse_args("").unwrap();
    let s = run_settings(&params, "py");
    assert_eq!((s.lang.as_str(), s.input.as_str(), s.compiler.as_str()), ("py", "", "rex"));
    let (params, _, _) = parse_args("-l rust -i '1 2' -c tio").unwrap();
    let s = run_settings(&params, "py");
    assert_eq!((s.lang.as_str(), s.input.as_str(), s.compiler.as_str()), ("rust", "1 2", "tio"));
}

#[test]
fn compiler_names() {
    for n in ["rex", "rextester", "rextester.com"] {
        assert!(matches!(compiler_choice(n), Some(Compiler::Rextester)));
    }
    for n in ["tio", "tio.run"] {
        assert!(matches!(compiler_choice(n), Some(Compiler::Tio)));
    }
    for n in ["wand", "wandbox"] {
        assert!(matches!(compiler_choice(n), Some(Compiler::Wandbox)));
    }
    assert!(compiler_choice("gcc").is_none());
}

#[test]
fn language_resolution() {
    let mut langs = StringHashSet::new();
    langs.insert("python3".to_string());
    let mut aliases: StringHashMap<String> = StringHashMap::new();
    aliases.insert("py".to_string(), "python3".to_string());
    assert_eq!(resolve_language("python3", &langs, &aliases).unwrap(), "python3");
    assert_eq!(resolve_language("py", &langs, &aliases).unwrap(), "python3");
    assert!(resolve_language("cobol", &langs, &aliases).is_none());
    assert_eq!(
        unsupported_language_message("cobol"),
        "The language `cobol` cannot be compiled."
    );
}

#[test]
fn rextester_lookup() {
    let ids = rextester::client::parse_langs("py|python 24\nc 6").unwrap();
    let mut args = HashMap::new();
    args.insert(6usize, "-Wall".to_string());
    assert_eq!(rextester_target("python", &ids, &args).unwrap(), ("24".to_string(), String::new()));
    assert_eq!(rextester_target("c", &ids, &args).unwrap(), ("6".to_string(), "-Wall".to_string()));
    assert!(rextester_target("go", &ids, &args).is_none());
}

#[test]
fn rextester_reply() {
    let o = rextester_outcome(&rextester::client::ApiResponse {
        Result: Some("out ".to_string()),
        Stats: Some("0.1s".to_string()),
        Warnings: None,
        Errors: Some("boom".to_string()),
    });
    assert_eq!(o.output, "out boom");
    assert_eq!(o.error, "");
    assert_eq!(o.stats, "0.1s");
}

#[test]
fn wandbox_reply_and_request() {
    let o = wandbox_outcome(&wandbox::client::ApiResponse {
        status: Some("1".to_string()),
        compiler_message: None,
        program_message: Some("oops".to_string()),
        compiler_error: None,
        program_output: None,
    });
    assert_eq!((o.output.as_str(), o.error.as_str(), o.stats.as_str()), ("oops", "err", "Status code: 1"));
    let o = wandbox_outcome(&wandbox::client::ApiResponse {
        status: None,
        compiler_message: None,
        program_message: None,
        compiler_error: None,
        program_output: None,
    });
    assert_eq!((o.output.as_str(), o.error.as_str(), o.stats.as_str()), ("", "", "Status code: 0"));
    let r = wandbox_request("int main(){}".to_string(), "gcc-head".to_string());
    assert_eq!((r.code.as_str(), r.compiler.as_str(), r.options.as_str(), r.compiler_options_raw.as_str(), r.save), ("int main(){}", "gcc-head", "", "", false));
}

#[test]
fn tio_reply() {
    let tok = "0123456789abcdef";
    let reply = format!("{tok}hello\n{tok}err msg\n\nReal time: 0.1 s\nExit code: 0\n{tok}");
    let o = tio_outcome(&reply);
    assert_eq!(o.output, "hello\nerr msg");
    assert_eq!(o.error, "err msg");
    assert_eq!(o.stats, "Real time: 0.1 s, Exit code: 0");
    let reply = format!("{tok}out{tok}  Real time: 1 s\n{tok}");
    let o = tio_outcome(&reply);
    assert_eq!((o.output.as_str(), o.error.as_str(), o.stats.as_str()), ("out", "", "Real time: 1 s"));
}

#[test]
fn tio_payload_strips_zlib_framing() {
    assert_eq!(tio_payload(&vec![1, 2, 3, 4, 5, 6, 7, 8, 9]), vec![3, 4, 5]);
    assert_eq!(tio_payload(&vec![1, 2, 3, 4, 5, 6]), Vec::<u8>::new());
}

#[test]
fn output_description() {
    let (params, _, _) = parse_args("-h rust").unwrap();
    assert_eq!(describe_output(&params, "hi"), "```rust\nhi```");
    let (params, _, _) = parse_args("").unwrap();
    assert_eq!(describe_output(&params, ""), "```css\nNO OUTPUT```");
    let long = "a".repeat(2000);
    assert_eq!(describe_output(&params, &long), format!("```css\n{}```", "a".repeat(1950)));
}

#[test]
fn delivery_modes() {
    let (params, _, flags) = parse_args("--file -e py").unwrap();
    match delivery(&flags, &params, "") {
        Delivery::File { name } => assert_eq!(name, "output.py"),
        _ => panic!("expected a file"),
    }
    let (params, _, flags) = parse_args("--clean").unwrap();
    assert!(matches!(delivery(&flags, &params, "x"), Delivery::Plain));
    let (params, _, flags) = parse_args("").unwrap();
    assert!(matches!(delivery(&flags, &params, ""), Delivery::Embed { color: 0x00BA9C }));
    assert!(matches!(delivery(&flags, &params, "err"), Delivery::Embed { color: 0xFFCF24 }));
}

#[test]
fn emoji_store_decision() {
    assert!(matches!(emoji_write(&None), EmojiWrite::Insert));
    assert!(matches!(emoji_write(&Some("x".to_string())), EmojiWrite::Update));
}

#[test]
fn setemoji_replies() {
    assert_eq!(
        setemoji_prompt(false, true),
        ("This command can only be used in a guild/server.".to_string(), false)
    );
    assert_eq!(
        setemoji_prompt(true, false),
        ("I'm sorry, this command is admin only.".to_string(), false)
    );
    assert_eq!(
        setemoji_prompt(true, true),
        ("React to this message with the emoji you want to set.".to_string(), true)
    );
    assert_eq!(setemoji_outcome(None, ""), "You did not react in time.");
    assert_eq!(setemoji_outcome(Some(true), "▶"), "Successfully set the trigger emoji to ▶.");
    assert_eq!(
        setemoji_outcome(Some(false), "▶"),
        "An error occured while setting the emoji, please try again."
    );
}
