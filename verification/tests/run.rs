use codegod::events::code_executor::{Delivery, Notice, RunOutcome};
use codegod::events::run::{step, RunAction, RunEvent, RunState, Tables, Target};
use codegod::{StringHashMap, StringHashSet};
use std::collections::HashMap;
use std::io::Read;

fn tables() -> Tables {
    let mut rextester_langs: StringHashMap<usize> = StringHashMap::new();
    rextester_langs.insert("c".to_string(), 6);
    let mut rextester_args: HashMap<usize, String> = HashMap::new();
    rextester_args.insert(6, "-Wall".to_string());
    let mut tio_langs = StringHashSet::new();
    tio_langs.insert("python3".to_string());
    let mut tio_aliases: StringHashMap<String> = StringHashMap::new();
    tio_aliases.insert("py".to_string(), "python3".to_string());
    let mut wandbox_langs = StringHashSet::new();
    wandbox_langs.insert("gcc-head".to_string());
    let mut wandbox_aliases: StringHashMap<String> = StringHashMap::new();
    wandbox_aliases.insert("cpp".to_string(), "gcc-head".to_string());
    Tables {
        rextester_langs,
        rextester_args,
        tio_langs,
        tio_aliases,
        wandbox_langs,
        wandbox_aliases,
    }
}

fn marked() -> RunState {
    let (s, a) = step(
        RunState::Start,
        RunEvent::Reaction { reactor_is_bot: false, emoji: "▶".to_string(), stored: None },
        &tables(),
    );
    assert!(matches!(a, RunAction::FetchMessage));
    s
}

/// Runs a message up to the action that follows its block choice.
fn run_message(text: &str) -> (RunState, RunAction) {
    let t = tables();
    let (s, a) = step(marked(), RunEvent::Message(text.to_string()), &t);
    match a {
        RunAction::Proceed => step(s, RunEvent::Proceed, &t),
        other => (s, other),
    }
}

#[test]
fn run_starts_only_on_the_trigger() {
    let t = tables();
    let (_, a) = step(
        RunState::Start,
        RunEvent::Reaction { reactor_is_bot: true, emoji: "▶".to_string(), stored: None },
        &t,
    );
    assert!(matches!(a, RunAction::Ignore));
    let (_, a) = step(
        RunState::Start,
        RunEvent::Reaction {
            reactor_is_bot: false,
            emoji: "▶".to_string(),
            stored: Some("🚀".to_string()),
        },
        &t,
    );
    assert!(matches!(a, RunAction::Ignore));
    let (s, a) = step(
        RunState::Start,
        RunEvent::Reaction {
            reactor_is_bot: false,
            emoji: "🚀".to_string(),
            stored: Some("🚀".to_string()),
        },
        &t,
    );
    assert!(matches!(a, RunAction::FetchMessage));
    assert!(matches!(s, RunState::Marked));
}

#[test]
fn run_stops_on_refused_arguments_and_blocks() {
    let (_, a) = run_message("-l \"py ```py\nx```");
    match a {
        RunAction::Stop(m) => assert_eq!(m, "**ArgumentParserError:** Missing closing quotation"),
        _ => panic!("expected a stop"),
    }
    let (_, a) = run_message("```py\nx``` ```");
    match a {
        RunAction::Stop(m) => assert_eq!(m, "**CodeblockParserError:** Unpaired ```s"),
        _ => panic!("expected a stop"),
    }
    let (_, a) = run_message("```x```");
    match a {
        RunAction::Stop(m) => {
            assert_eq!(m, "Looks like you forgot to mention the language lol.")
        }
        _ => panic!("expected a stop"),
    }
}

#[test]
fn run_asks_only_with_several_blocks() {
    let (s, a) = run_message("```py\nprint(1)``` and ```c\nint main(){}```");
    match a {
        RunAction::Ask(q) => {
            assert_eq!(q, "Which one do you want to run? Enter number from 1 to 2.")
        }
        _ => panic!("expected a question"),
    }
    let t = tables();
    let (s, a) = step(s, RunEvent::Reply(Some("2".to_string())), &t);
    assert!(matches!(a, RunAction::MarkRunning));
    let (_, a) = step(s, RunEvent::Proceed, &t);
    match a {
        RunAction::Request(job) => {
            assert_eq!(job.code, "int main(){}");
            match job.target {
                Target::Rextester { lang_id, lang_args } => {
                    assert_eq!(lang_id, "6");
                    assert_eq!(lang_args, "-Wall");
                }
                _ => panic!("expected rextester"),
            }
        }
        _ => panic!("expected a request"),
    }

    // no answer in time: the first block
    let (s, _) = run_message("```py\nprint(1)``` and ```c\nint main(){}```");
    let (s, a) = step(s, RunEvent::Reply(None), &t);
    assert!(matches!(a, RunAction::MarkRunning));
    match s {
        RunState::Ready { code, settings, .. } => {
            assert_eq!(code, "print(1)");
            assert_eq!(settings.lang, "py");
        }
        _ => panic!("expected a settled run"),
    }

    // a refused answer stops the run
    let (s, _) = run_message("```py\nprint(1)``` and ```c\nint main(){}```");
    let (_, a) = step(s, RunEvent::Reply(Some("3".to_string())), &t);
    match a {
        RunAction::Stop(m) => assert_eq!(m, "Sorry, that's too high. Cancelled."),
        _ => panic!("expected a stop"),
    }

    // one block: no question
    let (_, a) = run_message("```py\nprint(1)```");
    assert!(matches!(a, RunAction::MarkRunning));
}

#[test]
fn run_stops_on_unknown_compiler_or_language() {
    let t = tables();
    let (s, _) = run_message("-c nope ```py\nx```");
    let (_, a) = step(s, RunEvent::Proceed, &t);
    match a {
        RunAction::StopRunning(m) => assert_eq!(m, "invalid compiler name"),
        _ => panic!("expected a stop"),
    }
    let (s, _) = run_message("```cobol\nx```");
    let (_, a) = step(s, RunEvent::Proceed, &t);
    match a {
        RunAction::StopRunning(m) => assert_eq!(m, "The language `cobol` cannot be compiled."),
        _ => panic!("expected a stop"),
    }
    let (s, _) = run_message("-c wand ```cpp\nx```");
    let (_, a) = step(s, RunEvent::Proceed, &t);
    match a {
        RunAction::Request(job) => match job.target {
            Target::Wandbox { lang } => assert_eq!(lang, "gcc-head"),
            _ => panic!("expected wandbox"),
        },
        _ => panic!("expected a request"),
    }
}

#[test]
fn run_sends_tio_the_raw_deflate_request() {
    let t = tables();
    let (s, _) = run_message("-c tio -i hi ```py\nprint(input())```");
    let (_, a) = step(s, RunEvent::Proceed, &t);
    match a {
        RunAction::Request(job) => match job.target {
            Target::Tio { payload } => {
                let mut d = flate2::read::DeflateDecoder::new(&payload[..]);
                let mut out = String::new();
                d.read_to_string(&mut out).unwrap();
                assert_eq!(
                    out,
                    "Vlang\x001\x00python3\x00F.code.tio\x0014\x00print(input())\x00F.input.tio\x002\x00hi\x00R"
                );
            }
            _ => panic!("expected tio"),
        },
        _ => panic!("expected a request"),
    }
}

#[test]
fn run_delivers_and_offers_the_wastebasket() {
    let t = tables();
    let (s, _) = run_message("--clean -h py -c tio ```py\nprint(1)```");
    let (s, _) = step(s, RunEvent::Proceed, &t);
    let (s, a) = step(
        s,
        RunEvent::Outcome(RunOutcome {
            output: "1\n".to_string(),
            error: String::new(),
            stats: "ok".to_string(),
        }),
        &t,
    );
    match a {
        RunAction::Deliver(post) => {
            assert!(matches!(post.mode, Delivery::Plain));
            assert_eq!(post.description, "```py\n1\n```");
            assert_eq!(post.output, "1\n");
        }
        _ => panic!("expected a post"),
    }
    let (s, a) = step(s, RunEvent::Sent(true), &t);
    assert!(matches!(a, RunAction::OfferTrash));
    let (_, a) = step(s, RunEvent::Answer(Some("🗑️".to_string())), &t);
    assert!(matches!(a, RunAction::DeleteOutput));

    let (_, a) = step(RunState::Watching, RunEvent::Answer(None), &t);
    assert!(matches!(a, RunAction::RemoveTrash));
    let (_, a) = step(RunState::Delivering, RunEvent::Sent(false), &t);
    match a {
        RunAction::StopRunning(m) => assert_eq!(m, "Failed to send the message"),
        _ => panic!("expected a stop"),
    }
    let (s, _) = run_message("-c tio ```py\nprint(1)```");
    let (s, _) = step(s, RunEvent::Proceed, &t);
    let (_, a) = step(s, RunEvent::Failed(Notice::ServerStatus), &t);
    match a {
        RunAction::StopRunning(m) => assert_eq!(m, "**ServerError:** returned non Ok status."),
        _ => panic!("expected a stop"),
    }
}
