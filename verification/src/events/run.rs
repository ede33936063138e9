//! The course of a run, as a machine: from what a run has gathered so far
//! (its state) and what has just happened (an event) to the next state and
//! what the caller must do (an action). The caller performs each action in
//! the chat or on the network and reports back with the next event, until
//! the machine is done.

use vstd::prelude::*;
use vstd::hash_map::StringHashMap;
use vstd::hash_set::StringHashSet;
use vstd::utf8::encode_utf8;
use std::collections::HashMap;
use crate::compilers::tio::client::{make_request_string, request_string, zlib_compress, zlib_stream};
use crate::events::code_executor::{
    block_after_reply, block_choice, compiler_choice, compiler_named,
    default_trigger, delivery, describe_output, embed_color, is_trash, message_cut, notice_message,
    notice_text, output_cuttable, output_excerpt, param_or, rextester_target, rextester_target_of,
    resolve_language, resolved_language, run_settings, should_run, split_message, tio_payload,
    trash_emoji, trigger_for, unsupported_language_message, unsupported_message, Compiler, Delivery,
    Notice, RunOutcome, RunSettings,
};
use crate::numeric::{decimal, parse_usize};
use crate::utils::parser::{
    args_of, codeblock_lang, codeblocks, parse_args, parse_codeblock_lang, parse_codeblocks,
    value_views, views,
};

verus! {

/// The language tables of the compilers.
pub struct Tables {
    /// rextester's language numbers, by language name.
    pub rextester_langs: StringHashMap<usize>,
    /// rextester's compiler arguments, by language number.
    pub rextester_args: HashMap<usize, String>,
    /// tio's languages.
    pub tio_langs: StringHashSet,
    /// tio's aliases, to the languages they stand for.
    pub tio_aliases: StringHashMap<String>,
    /// wandbox's compilers.
    pub wandbox_langs: StringHashSet,
    /// wandbox's aliases, to the compilers they stand for.
    pub wandbox_aliases: StringHashMap<String>,
}

/// Where the code of a run is sent, with what that compiler needs.
pub enum Target {
    /// rextester, with the language number (as text) and its arguments.
    Rextester { lang_id: String, lang_args: String },
    /// tio, with the bytes of the request.
    Tio { payload: Vec<u8> },
    /// wandbox, with the compiler to use.
    Wandbox { lang: String },
}

/// A request to run code.
pub struct Job {
    pub code: String,
    pub input: String,
    pub target: Target,
}

/// The result of a run, ready to be posted.
pub struct Post {
    pub mode: Delivery,
    pub description: String,
    pub output: String,
    pub stats: String,
}

/// What a run has gathered so far.
pub enum RunState {
    /// Nothing yet: a reaction is awaited.
    Start,
    /// The reaction asks for a run: the message is awaited.
    Marked,
    /// The arguments are read; `rest` is the text holding the code blocks.
    ArgsRead { params: StringHashMap<String>, flags: StringHashSet, rest: String },
    /// The author was asked which of `blocks` to run.
    Choosing { params: StringHashMap<String>, flags: StringHashSet, blocks: Vec<String> },
    /// The block is chosen and the run settled; the running mark is due.
    Ready {
        params: StringHashMap<String>,
        flags: StringHashSet,
        settings: RunSettings,
        code: String,
    },
    /// The code went to its compiler; its result is awaited.
    Requested { params: StringHashMap<String>, flags: StringHashSet },
    /// The result is being posted.
    Delivering,
    /// The result is posted; a wastebasket reaction may remove it.
    Watching,
    /// Nothing more to do.
    Done,
}

/// What happened since the last action.
pub enum RunEvent {
    /// A reaction was added, by a bot or not, on a server that stored this
    /// trigger emoji (or none).
    Reaction { reactor_is_bot: bool, emoji: String, stored: Option<String> },
    /// The text of the message that got the reaction.
    Message(String),
    /// The last action was carried out.
    Proceed,
    /// The author's answer to the question, or none in time.
    Reply(Option<String>),
    /// The compiler's result.
    Outcome(RunOutcome),
    /// The compiler could not be reached or answered badly.
    Failed(Notice),
    /// Whether the result could be posted.
    Sent(bool),
    /// The reaction of the author on the posted result, or none in time.
    Answer(Option<String>),
}

/// What the caller must do next.
pub enum RunAction {
    /// Nothing; the run is over.
    Ignore,
    /// Fetch the message, clear its reactions, and report its text.
    FetchMessage,
    /// Nothing outside; step again with `Proceed`.
    Proceed,
    /// Post this text; the run is over.
    Stop(String),
    /// Post this question and report the author's answer.
    Ask(String),
    /// Mark the message as running, then step again with `Proceed`.
    MarkRunning,
    /// Post this text and remove the running mark; the run is over.
    StopRunning(String),
    /// Send this job and report its result.
    Request(Job),
    /// Post this result and report whether that worked.
    Deliver(Post),
    /// Remove the running mark, put a wastebasket on the result and report
    /// the author's reaction.
    OfferTrash,
    /// Delete the posted result; the run is over.
    DeleteOutput,
    /// Remove the wastebasket; the run is over.
    RemoveTrash,
}

/// Parameters by name, as text.
pub type Params = Map<Seq<char>, Seq<char>>;

/// A run's state as plain values.
pub enum StateModel {
    Start,
    Marked,
    ArgsRead { params: Params, flags: Set<Seq<char>>, rest: Seq<char> },
    Choosing { params: Params, flags: Set<Seq<char>>, blocks: Seq<Seq<char>> },
    Ready {
        params: Params,
        flags: Set<Seq<char>>,
        lang: Seq<char>,
        input: Seq<char>,
        compiler: Seq<char>,
        code: Seq<char>,
    },
    Requested { params: Params, flags: Set<Seq<char>> },
    Delivering,
    Watching,
    Done,
}

/// An event as plain values.
pub enum EventModel {
    Reaction { reactor_is_bot: bool, emoji: Seq<char>, stored: Option<Seq<char>> },
    Message(Seq<char>),
    Proceed,
    Reply(Option<Seq<char>>),
    Outcome { output: Seq<char>, error: Seq<char>, stats: Seq<char> },
    Failed(Seq<char>),
    Sent(bool),
    Answer(Option<Seq<char>>),
}

/// A target as plain values.
pub enum TargetModel {
    Rextester { lang_id: Seq<char>, lang_args: Seq<char> },
    Tio { payload: Seq<u8> },
    Wandbox { lang: Seq<char> },
}

/// A way of posting the result, as plain values.
pub enum DeliveryModel {
    File { name: Seq<char> },
    Plain,
    Embed { color: u32 },
}

/// An action as plain values.
pub enum ActionModel {
    Ignore,
    FetchMessage,
    Proceed,
    Stop(Seq<char>),
    Ask(Seq<char>),
    MarkRunning,
    StopRunning(Seq<char>),
    Request { code: Seq<char>, input: Seq<char>, target: TargetModel },
    Deliver { mode: DeliveryModel, description: Seq<char>, output: Seq<char>, stats: Seq<char> },
    OfferTrash,
    DeleteOutput,
    RemoveTrash,
}

/// The text of an optional string.
pub open spec fn text_of(o: Option<String>) -> Option<Seq<char>> {
    match o {
        Some(s) => Some(s@),
        None => None,
    }
}

impl View for RunState {
    type V = StateModel;

    open spec fn view(&self) -> StateModel {
        match self {
            RunState::Start => StateModel::Start,
            RunState::Marked => StateModel::Marked,
            RunState::ArgsRead { params, flags, rest } => StateModel::ArgsRead {
                params: value_views(params@),
                flags: flags@,
                rest: rest@,
            },
            RunState::Choosing { params, flags, blocks } => StateModel::Choosing {
                params: value_views(params@),
                flags: flags@,
                blocks: views(blocks@),
            },
            RunState::Ready { params, flags, settings, code } => StateModel::Ready {
                params: value_views(params@),
                flags: flags@,
                lang: settings.lang@,
                input: settings.input@,
                compiler: settings.compiler@,
                code: code@,
            },
            RunState::Requested { params, flags } => StateModel::Requested {
                params: value_views(params@),
                flags: flags@,
            },
            RunState::Delivering => StateModel::Delivering,
            RunState::Watching => StateModel::Watching,
            RunState::Done => StateModel::Done,
        }
    }
}

impl View for RunEvent {
    type V = EventModel;

    open spec fn view(&self) -> EventModel {
        match self {
            RunEvent::Reaction { reactor_is_bot, emoji, stored } => EventModel::Reaction {
                reactor_is_bot: *reactor_is_bot,
                emoji: emoji@,
                stored: text_of(*stored),
            },
            RunEvent::Message(text) => EventModel::Message(text@),
            RunEvent::Proceed => EventModel::Proceed,
            RunEvent::Reply(a) => EventModel::Reply(text_of(*a)),
            RunEvent::Outcome(o) => EventModel::Outcome {
                output: o.output@,
                error: o.error@,
                stats: o.stats@,
            },
            RunEvent::Failed(n) => EventModel::Failed(notice_message(*n)),
            RunEvent::Sent(ok) => EventModel::Sent(*ok),
            RunEvent::Answer(a) => EventModel::Answer(text_of(*a)),
        }
    }
}

impl View for Target {
    type V = TargetModel;

    open spec fn view(&self) -> TargetModel {
        match self {
            Target::Rextester { lang_id, lang_args } => TargetModel::Rextester {
                lang_id: lang_id@,
                lang_args: lang_args@,
            },
            Target::Tio { payload } => TargetModel::Tio { payload: payload@ },
            Target::Wandbox { lang } => TargetModel::Wandbox { lang: lang@ },
        }
    }
}

impl View for Delivery {
    type V = DeliveryModel;

    open spec fn view(&self) -> DeliveryModel {
        match self {
            Delivery::File { name } => DeliveryModel::File { name: name@ },
            Delivery::Plain => DeliveryModel::Plain,
            Delivery::Embed { color } => DeliveryModel::Embed { color: *color },
        }
    }
}

impl View for RunAction {
    type V = ActionModel;

    open spec fn view(&self) -> ActionModel {
        match self {
            RunAction::Ignore => ActionModel::Ignore,
            RunAction::FetchMessage => ActionModel::FetchMessage,
            RunAction::Proceed => ActionModel::Proceed,
            RunAction::Stop(m) => ActionModel::Stop(m@),
            RunAction::Ask(m) => ActionModel::Ask(m@),
            RunAction::MarkRunning => ActionModel::MarkRunning,
            RunAction::StopRunning(m) => ActionModel::StopRunning(m@),
            RunAction::Request(job) => ActionModel::Request {
                code: job.code@,
                input: job.input@,
                target: job.target@,
            },
            RunAction::Deliver(post) => ActionModel::Deliver {
                mode: post.mode@,
                description: post.description@,
                output: post.output@,
                stats: post.stats@,
            },
            RunAction::OfferTrash => ActionModel::OfferTrash,
            RunAction::DeleteOutput => ActionModel::DeleteOutput,
            RunAction::RemoveTrash => ActionModel::RemoveTrash,
        }
    }
}

/// The value of parameter `key`, or `default`.
pub open spec fn param_in(params: Params, key: Seq<char>, default: Seq<char>) -> Seq<char> {
    if params.contains_key(key) {
        params[key]
    } else {
        default
    }
}

/// The trigger emoji of a server that stored `stored`.
pub open spec fn trigger_of(stored: Option<Seq<char>>) -> Seq<char> {
    match stored {
        Some(e) => e,
        None => default_trigger(),
    }
}

/// The bytes tio is sent to run `code` as `lang` with `input`: its
/// request, compressed, without the zlib framing.
pub open spec fn tio_bytes(lang: Seq<char>, code: Seq<char>, input: Seq<char>) -> Seq<u8> {
    let z = zlib_stream(encode_utf8(request_string(lang, code, input)));
    z.subrange(2, z.len() - 4)
}

/// Where `code` goes on compiler `c` for language `lang`: none when that
/// compiler does not know the language.
pub open spec fn target_of(
    c: Compiler,
    lang: Seq<char>,
    code: Seq<char>,
    input: Seq<char>,
    t: Tables,
) -> Option<TargetModel> {
    match c {
        Compiler::Rextester => match rextester_target_of(lang, t.rextester_langs@, t.rextester_args@) {
            Some((id, args)) => Some(TargetModel::Rextester { lang_id: id, lang_args: args }),
            None => None,
        },
        Compiler::Tio => match resolved_language(lang, t.tio_langs@, t.tio_aliases@) {
            Some(l) => Some(TargetModel::Tio { payload: tio_bytes(l, code, input) }),
            None => None,
        },
        Compiler::Wandbox => match resolved_language(lang, t.wandbox_langs@, t.wandbox_aliases@) {
            Some(l) => Some(TargetModel::Wandbox { lang: l }),
            None => None,
        },
    }
}

/// How the result is posted: as a file with flag `file`, plainly with flag
/// `clean`, else as an embed coloured by the error text.
pub open spec fn delivery_of(flags: Set<Seq<char>>, params: Params, error: Seq<char>) -> DeliveryModel {
    if flags.contains("file"@) {
        DeliveryModel::File { name: "output."@ + param_in(params, "e"@, "txt"@) }
    } else if flags.contains("clean"@) {
        DeliveryModel::Plain
    } else {
        DeliveryModel::Embed { color: embed_color(error) }
    }
}

/// The description of the output: its excerpt in a code block highlighted
/// as parameter `h` says.
pub open spec fn description_of(params: Params, out: Seq<char>) -> Seq<char> {
    "```"@ + param_in(params, "h"@, "css"@) + "\n"@ + output_excerpt(out) + "```"@
}

/// Once the block is known: its language tag and code, and the run settled
/// from them and the parameters; without a language tag the run stops.
pub open spec fn with_block(params: Params, flags: Set<Seq<char>>, block: Seq<char>) -> (
    StateModel,
    ActionModel,
) {
    match codeblock_lang(block) {
        Err(_) => (StateModel::Done, ActionModel::Stop(notice_message(Notice::NoLanguage))),
        Ok((lang, code)) => (
            StateModel::Ready {
                params,
                flags,
                lang: param_in(params, "l"@, lang),
                input: param_in(params, "i"@, ""@),
                compiler: param_in(params, "c"@, "rex"@),
                code,
            },
            ActionModel::MarkRunning,
        ),
    }
}

/// The next state and action of a run.
///  - A reaction starts a run when a person added the server's trigger.
///  - The message is cut at its first fence; refused arguments stop the run.
///  - Refused code blocks stop the run; with more than one block, the
///    author is asked which one, else the only one is taken.
///  - An answer picks a block (no answer: the first); a refused answer
///    stops the run.
///  - A block without a language tag stops the run; else the message is
///    marked running.
///  - An unknown compiler, or a language the compiler does not know, stops
///    the run; else the code is sent.
///  - The compiler's result is posted; a failure stops the run.
///  - Once posted, a wastebasket is offered; taking it deletes the result.
///  - Any other event ends the run with nothing to do.
pub open spec fn next(s: StateModel, e: EventModel, t: Tables) -> (StateModel, ActionModel) {
    match s {
        StateModel::Start => match e {
            EventModel::Reaction { reactor_is_bot, emoji, stored } => if !reactor_is_bot && emoji
                == trigger_of(stored) {
                (StateModel::Marked, ActionModel::FetchMessage)
            } else {
                (StateModel::Done, ActionModel::Ignore)
            },
            _ => (StateModel::Done, ActionModel::Ignore),
        },
        StateModel::Marked => match e {
            EventModel::Message(text) => {
                let cut = message_cut(text);
                match args_of(text.subrange(0, cut)) {
                    Err(m) => (
                        StateModel::Done,
                        ActionModel::Stop("**ArgumentParserError:** "@ + m),
                    ),
                    Ok((p, _i, f)) => (
                        StateModel::ArgsRead {
                            params: p,
                            flags: f,
                            rest: text.subrange(cut, text.len() as int),
                        },
                        ActionModel::Proceed,
                    ),
                }
            },
            _ => (StateModel::Done, ActionModel::Ignore),
        },
        StateModel::ArgsRead { params, flags, rest } => match e {
            EventModel::Proceed => match codeblocks(rest) {
                Err(m) => (StateModel::Done, ActionModel::Stop("**CodeblockParserError:** "@ + m)),
                Ok(b) => if b.len() > 1 {
                    (
                        StateModel::Choosing { params, flags, blocks: b },
                        ActionModel::Ask(
                            "Which one do you want to run? Enter number from 1 to "@ + decimal(
                                b.len(),
                            ) + "."@,
                        ),
                    )
                } else {
                    with_block(params, flags, b[0])
                },
            },
            _ => (StateModel::Done, ActionModel::Ignore),
        },
        StateModel::Choosing { params, flags, blocks } => match e {
            EventModel::Reply(None) => with_block(params, flags, blocks[0]),
            EventModel::Reply(Some(a)) => match block_choice(a, blocks.len() as usize) {
                Err(m) => (StateModel::Done, ActionModel::Stop(m)),
                Ok(i) => with_block(params, flags, blocks[i as int]),
            },
            _ => (StateModel::Done, ActionModel::Ignore),
        },
        StateModel::Ready { params, flags, lang, input, compiler, code } => match e {
            EventModel::Proceed => match compiler_named(compiler) {
                None => (
                    StateModel::Done,
                    ActionModel::StopRunning(notice_message(Notice::InvalidCompiler)),
                ),
                Some(c) => match target_of(c, lang, code, input, t) {
                    None => (StateModel::Done, ActionModel::StopRunning(unsupported_message(lang))),
                    Some(tg) => (
                        StateModel::Requested { params, flags },
                        ActionModel::Request { code, input, target: tg },
                    ),
                },
            },
            _ => (StateModel::Done, ActionModel::Ignore),
        },
        StateModel::Requested { params, flags } => match e {
            EventModel::Outcome { output, error, stats } => (
                StateModel::Delivering,
                ActionModel::Deliver {
                    mode: delivery_of(flags, params, error),
                    description: description_of(params, output),
                    output,
                    stats,
                },
            ),
            EventModel::Failed(m) => (StateModel::Done, ActionModel::StopRunning(m)),
            _ => (StateModel::Done, ActionModel::Ignore),
        },
        StateModel::Delivering => match e {
            EventModel::Sent(ok) => if ok {
                (StateModel::Watching, ActionModel::OfferTrash)
            } else {
                (StateModel::Done, ActionModel::StopRunning(notice_message(Notice::SendFailed)))
            },
            _ => (StateModel::Done, ActionModel::Ignore),
        },
        StateModel::Watching => match e {
            EventModel::Answer(None) => (StateModel::Done, ActionModel::RemoveTrash),
            EventModel::Answer(Some(r)) => if r == trash_emoji() {
                (StateModel::Done, ActionModel::DeleteOutput)
            } else {
                (StateModel::Done, ActionModel::Ignore)
            },
            _ => (StateModel::Done, ActionModel::Ignore),
        },
        StateModel::Done => (StateModel::Done, ActionModel::Ignore),
    }
}

/// A state the machine can be in: one asking which block holds more than
/// one block.
pub open spec fn state_ok(s: StateModel) -> bool {
    match s {
        StateModel::Choosing { blocks, .. } => 1 < blocks.len() <= usize::MAX,
        _ => true,
    }
}

/// The events the original program takes without a crash: the code text
/// holds a block once it is well formed, an answer is not `0`, and the
/// output can be cut at 1950 bytes.
pub open spec fn event_ok(s: StateModel, e: EventModel) -> bool {
    match (s, e) {
        (StateModel::ArgsRead { rest, .. }, EventModel::Proceed) => codeblocks(rest) matches Ok(
            b,
        ) ==> b.len() > 0,
        (StateModel::Choosing { .. }, EventModel::Reply(Some(a))) => parse_usize(a) != Some(
            0usize,
        ),
        (StateModel::Requested { .. }, EventModel::Outcome { output, .. }) => output_cuttable(
            output,
        ),
        _ => true,
    }
}

/// The bytes tio is sent (see `tio_bytes`).
fn tio_request_bytes(lang: &str, code: &str, input: &str) -> (r: Vec<u8>)
    ensures
        r@ == tio_bytes(lang@, code@, input@),
{
    let req = make_request_string(lang, code, input).unwrap();
    let z = zlib_compress(req.as_str()).unwrap();
    tio_payload(&z)
}

/// Where the code goes (see `target_of`).
fn job_target(c: Compiler, lang: &str, code: &str, input: &str, t: &Tables) -> (r: Option<
    Target,
>)
    ensures
        match r {
            Some(tg) => target_of(c, lang@, code@, input@, *t) == Some(tg@),
            None => target_of(c, lang@, code@, input@, *t) is None,
        },
{
    match c {
        Compiler::Rextester => match rextester_target(lang, &t.rextester_langs, &t.rextester_args) {
            Some((lang_id, lang_args)) => Some(Target::Rextester { lang_id, lang_args }),
            None => None,
        },
        Compiler::Tio => match resolve_language(lang, &t.tio_langs, &t.tio_aliases) {
            Some(l) => Some(Target::Tio { payload: tio_request_bytes(l.as_str(), code, input) }),
            None => None,
        },
        Compiler::Wandbox => match resolve_language(lang, &t.wandbox_langs, &t.wandbox_aliases) {
            Some(l) => Some(Target::Wandbox { lang: l }),
            None => None,
        },
    }
}

/// A parameter read through the views of the values.
proof fn lemma_param_views(m: Map<Seq<char>, String>, key: Seq<char>, default: Seq<char>)
    ensures
        param_or(m, key, default) == param_in(value_views(m), key, default),
{
}

/// The step once the block is known (see `with_block`).
fn take_block(params: StringHashMap<String>, flags: StringHashSet, block: &String) -> (r: (
    RunState,
    RunAction,
))
    ensures
        r.0@ == with_block(value_views(params@), flags@, block@).0,
        r.1@ == with_block(value_views(params@), flags@, block@).1,
        state_ok(r.0@),
{
    match parse_codeblock_lang(block.as_str()) {
        Err(_) => (RunState::Done, RunAction::Stop(notice_text(&Notice::NoLanguage))),
        Ok((lang, code)) => {
            let settings = run_settings(&params, lang.as_str());
            proof {
                lemma_param_views(params@, "l"@, lang@);
                lemma_param_views(params@, "i"@, ""@);
                lemma_param_views(params@, "c"@, "rex"@);
            }
            (RunState::Ready { params, flags, settings, code }, RunAction::MarkRunning)
        },
    }
}

/// Takes one step of a run (see `next`).
pub fn step(state: RunState, event: RunEvent, tables: &Tables) -> (r: (RunState, RunAction))
    requires
        state_ok(state@),
        event_ok(state@, event@),
    ensures
        r.0@ == next(state@, event@, *tables).0,
        r.1@ == next(state@, event@, *tables).1,
        state_ok(r.0@),
{
    let ghost s = state@;
    let ghost e = event@;
    match state {
        RunState::Start => match event {
            RunEvent::Reaction { reactor_is_bot, emoji, stored } => {
                let trigger = trigger_for(stored);
                if should_run(reactor_is_bot, emoji.as_str(), trigger.as_str()) {
                    (RunState::Marked, RunAction::FetchMessage)
                } else {
                    (RunState::Done, RunAction::Ignore)
                }
            },
            _ => (RunState::Done, RunAction::Ignore),
        },
        RunState::Marked => match event {
            RunEvent::Message(text) => {
                let (args, rest) = split_message(text.as_str());
                match parse_args(args.as_str()) {
                    Err(m) => (
                        RunState::Done,
                        RunAction::Stop(notice_text(&Notice::ArgumentParser(m))),
                    ),
                    Ok((params, _inputs, flags)) => (
                        RunState::ArgsRead { params, flags, rest },
                        RunAction::Proceed,
                    ),
                }
            },
            _ => (RunState::Done, RunAction::Ignore),
        },
        RunState::ArgsRead { params, flags, rest } => match event {
            RunEvent::Proceed => match parse_codeblocks(rest.as_str()) {
                Err(m) => (RunState::Done, RunAction::Stop(notice_text(&Notice::CodeblockParser(m)))),
                Ok(blocks) => {
                    if blocks.len() > 1 {
                        let question = notice_text(&Notice::WhichBlock(blocks.len()));
                        (RunState::Choosing { params, flags, blocks }, RunAction::Ask(question))
                    } else {
                        take_block(params, flags, &blocks[0])
                    }
                },
            },
            _ => (RunState::Done, RunAction::Ignore),
        },
        RunState::Choosing { params, flags, blocks } => match event {
            RunEvent::Reply(reply) => {
                let choice = match &reply {
                    Some(a) => block_after_reply(Some(a.as_str()), blocks.len()),
                    None => block_after_reply(None, blocks.len()),
                };
                match choice {
                    Err(m) => (RunState::Done, RunAction::Stop(m)),
                    Ok(i) => take_block(params, flags, &blocks[i]),
                }
            },
            _ => (RunState::Done, RunAction::Ignore),
        },
        RunState::Ready { params, flags, settings, code } => match event {
            RunEvent::Proceed => match compiler_choice(settings.compiler.as_str()) {
                None => (
                    RunState::Done,
                    RunAction::StopRunning(notice_text(&Notice::InvalidCompiler)),
                ),
                Some(c) => match job_target(
                    c,
                    settings.lang.as_str(),
                    code.as_str(),
                    settings.input.as_str(),
                    tables,
                ) {
                    None => (
                        RunState::Done,
                        RunAction::StopRunning(unsupported_language_message(settings.lang.as_str())),
                    ),
                    Some(target) => (
                        RunState::Requested { params, flags },
                        RunAction::Request(Job { code, input: settings.input, target }),
                    ),
                },
            },
            _ => (RunState::Done, RunAction::Ignore),
        },
        RunState::Requested { params, flags } => match event {
            RunEvent::Outcome(o) => {
                let description = describe_output(&params, o.output.as_str());
                let mode = delivery(&flags, &params, o.error.as_str());
                proof {
                    lemma_param_views(params@, "h"@, "css"@);
                    lemma_param_views(params@, "e"@, "txt"@);
                }
                (
                    RunState::Delivering,
                    RunAction::Deliver(Post { mode, description, output: o.output, stats: o.stats }),
                )
            },
            RunEvent::Failed(n) => (RunState::Done, RunAction::StopRunning(notice_text(&n))),
            _ => (RunState::Done, RunAction::Ignore),
        },
        RunState::Delivering => match event {
            RunEvent::Sent(ok) => {
                if ok {
                    (RunState::Watching, RunAction::OfferTrash)
                } else {
                    (RunState::Done, RunAction::StopRunning(notice_text(&Notice::SendFailed)))
                }
            },
            _ => (RunState::Done, RunAction::Ignore),
        },
        RunState::Watching => match event {
            RunEvent::Answer(None) => (RunState::Done, RunAction::RemoveTrash),
            RunEvent::Answer(Some(r)) => {
                if is_trash(r.as_str()) {
                    (RunState::Done, RunAction::DeleteOutput)
                } else {
                    (RunState::Done, RunAction::Ignore)
                }
            },
            _ => (RunState::Done, RunAction::Ignore),
        },
        RunState::Done => (RunState::Done, RunAction::Ignore),
    }
}

/// Once its block is chosen, a run is settled from the block and the
/// parameters: the language is parameter `l` when given, else the block's
/// tag (its text up to the first line break); the input is parameter `i`
/// when given, else empty; the compiler is parameter `c` when given, else
/// `rex`; the code is the rest of the block, and the parameters and flags
/// are kept. A block without a line break stops the run.
pub proof fn lemma_block_settles_run(params: Params, flags: Set<Seq<char>>, block: Seq<char>)
    ensures
        match codeblock_lang(block) {
            Ok((tag, body)) => {
                &&& tag + seq!['\n'] + body == block
                &&& !tag.contains('\n')
                &&& with_block(params, flags, block).1 == ActionModel::MarkRunning
                &&& with_block(params, flags, block).0 matches StateModel::Ready {
                    params: p,
                    flags: f,
                    lang,
                    input,
                    compiler,
                    code,
                } && {
                    &&& p == params && f == flags && code == body
                    &&& params.contains_key("l"@) ==> lang == params["l"@]
                    &&& !params.contains_key("l"@) ==> lang == tag
                    &&& params.contains_key("i"@) ==> input == params["i"@]
                    &&& !params.contains_key("i"@) ==> input == Seq::<char>::empty()
                    &&& params.contains_key("c"@) ==> compiler == params["c"@]
                    &&& !params.contains_key("c"@) ==> compiler == "rex"@
                }
            },
            Err(_) => with_block(params, flags, block) == (
                StateModel::Done,
                ActionModel::Stop(notice_message(Notice::NoLanguage)),
            ),
        },
{
    if codeblock_lang(block) is Ok {
        crate::utils::parser::lemma_codeblock_lang_rejoins(block);
    }
    assert(""@ =~= Seq::<char>::empty()) by {
        reveal_strlit("");
    }
}

/// A settled run sends its own code with its own input: when the compiler
/// is known and knows the language, the action is a request holding
/// exactly the run's code and input; otherwise the run stops.
pub proof fn lemma_request_carries_run(
    params: Params,
    flags: Set<Seq<char>>,
    lang: Seq<char>,
    input: Seq<char>,
    compiler: Seq<char>,
    code: Seq<char>,
    t: Tables,
)
    ensures
        ({
            let (s, a) = next(
                StateModel::Ready { params, flags, lang, input, compiler, code },
                EventModel::Proceed,
                t,
            );
            &&& a matches ActionModel::Request { code: c, input: i, target } ==> {
                &&& c == code && i == input
                &&& compiler_named(compiler) matches Some(k) && target_of(k, lang, code, input, t)
                    == Some(target)
                &&& s == StateModel::Requested { params, flags }
            }
            &&& !(a is Request) ==> s == StateModel::Done && a is StopRunning
            &&& (compiler_named(compiler) matches Some(k) && target_of(k, lang, code, input, t)
                is Some) ==> a is Request
        }),
{
}

/// The result of a run is posted as it came: the post holds the
/// compiler's output and statistics unchanged, its description shows the
/// output's excerpt in a code block, and it goes as a file exactly with
/// flag `file`, plainly exactly with flag `clean` and no `file`, and
/// otherwise as an embed, green without error text and amber with it.
pub proof fn lemma_result_posted_as_it_came(
    params: Params,
    flags: Set<Seq<char>>,
    output: Seq<char>,
    error: Seq<char>,
    stats: Seq<char>,
    t: Tables,
)
    ensures
        ({
            let (s, a) = next(
                StateModel::Requested { params, flags },
                EventModel::Outcome { output, error, stats },
                t,
            );
            &&& s == StateModel::Delivering
            &&& a matches ActionModel::Deliver { mode, description, output: o, stats: st } && {
                &&& o == output && st == stats
                &&& description.subrange(0, 3) == seq!['`', '`', '`']
                &&& description.subrange(
                    description.len() - output_excerpt(output).len() - 3,
                    description.len() as int,
                ) == output_excerpt(output) + seq!['`', '`', '`']
                &&& description == "```"@ + (if params.contains_key("h"@) {
                    params["h"@]
                } else {
                    "css"@
                }) + "\n"@ + output_excerpt(output) + "```"@
                &&& (mode is File) == flags.contains("file"@)
                &&& mode matches DeliveryModel::File { name } ==> name == "output."@ + (
                if params.contains_key("e"@) {
                    params["e"@]
                } else {
                    "txt"@
                })
                &&& (mode is Plain) == (!flags.contains("file"@) && flags.contains("clean"@))
                &&& mode matches DeliveryModel::Embed { color } ==> (color == 0x00BA9Cu32)
                    == (error.len() == 0)
            }
        }),
{
    let d = description_of(params, output);
    let tick3 = "```"@;
    let mid = param_in(params, "h"@, "css"@) + "\n"@;
    let ex = output_excerpt(output);
    assert(tick3 =~= seq!['`', '`', '`']) by {
        reveal_strlit("```");
    }
    assert(d =~= tick3 + mid + ex + tick3);
    assert(d.subrange(0, 3) =~= tick3);
    assert(d.subrange(d.len() - ex.len() - 3, d.len() as int) =~= ex + tick3);
}

/// Where a run's code goes is read from that compiler's own tables:
/// rextester gets the language's number (in decimal) and that number's
/// arguments (none when it has none); tio and wandbox get the language
/// itself when they list it, else the one it is an alias of; tio's bytes
/// are the request for that language, code and input. A language none of
/// these name gives no target.
pub proof fn lemma_target_from_tables(
    c: Compiler,
    lang: Seq<char>,
    code: Seq<char>,
    input: Seq<char>,
    t: Tables,
)
    ensures
        match c {
            Compiler::Rextester => {
                let ids = t.rextester_langs@;
                let args = t.rextester_args@;
                &&& ids.contains_key(lang) ==> target_of(c, lang, code, input, t) == Some(
                    TargetModel::Rextester {
                        lang_id: decimal(ids[lang] as nat),
                        lang_args: if args.contains_key(ids[lang]) {
                            args[ids[lang]]@
                        } else {
                            Seq::empty()
                        },
                    },
                )
                &&& !ids.contains_key(lang) ==> target_of(c, lang, code, input, t) is None
            },
            Compiler::Tio => {
                &&& t.tio_langs@.contains(lang) ==> target_of(c, lang, code, input, t) == Some(
                    TargetModel::Tio { payload: tio_bytes(lang, code, input) },
                )
                &&& !t.tio_langs@.contains(lang) && t.tio_aliases@.contains_key(lang)
                    ==> target_of(c, lang, code, input, t) == Some(
                    TargetModel::Tio { payload: tio_bytes(t.tio_aliases@[lang]@, code, input) },
                )
                &&& !t.tio_langs@.contains(lang) && !t.tio_aliases@.contains_key(lang)
                    ==> target_of(c, lang, code, input, t) is None
            },
            Compiler::Wandbox => {
                &&& t.wandbox_langs@.contains(lang) ==> target_of(c, lang, code, input, t) == Some(
                    TargetModel::Wandbox { lang },
                )
                &&& !t.wandbox_langs@.contains(lang) && t.wandbox_aliases@.contains_key(lang)
                    ==> target_of(c, lang, code, input, t) == Some(
                    TargetModel::Wandbox { lang: t.wandbox_aliases@[lang]@ },
                )
                &&& !t.wandbox_langs@.contains(lang) && !t.wandbox_aliases@.contains_key(lang)
                    ==> target_of(c, lang, code, input, t) is None
            },
        },
{
}

} // verus!
