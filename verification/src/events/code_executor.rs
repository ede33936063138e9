//! The decisions the bot takes when a message is marked for running: which
//! reactions it acts on, how the message is cut into arguments and code,
//! which code block, language, input and compiler are used, how each
//! compiler's reply becomes output, and how the output is delivered.
//! The chat and network work around these decisions stays with the caller.

use vstd::prelude::*;
use vstd::hash_map::StringHashMap;
use vstd::hash_set::StringHashSet;
use vstd::utf8::{decode_utf8, encode_utf8, is_char_boundary};
use std::collections::HashMap;
use crate::compilers::table::append_chars;
use crate::compilers::{rextester, wandbox};
use crate::numeric::{decimal, decimal_string, parse_usize, parse_usize_exec};
use crate::text::{
    occurs_at, chars_of, find, find_exec, pieces, push_char, rfind, rfind_exec, same_chars, split, split_from,
    split_ranges, string_from, string_of, sub_vec, trim, trim_vec,
};
use crate::utils::parser::{codeblocks, fence};

verus! {

broadcast use vstd::std_specs::hash::group_hash_axioms;

/// The reaction that asks for the output to be deleted: a wastebasket.
pub open spec fn trash_emoji() -> Seq<char> {
    seq!['\u{1F5D1}', '\u{FE0F}']
}

/// A reaction starts a run when a person (not a bot) added the trigger
/// emoji.
pub fn should_run(reactor_is_bot: bool, emoji: &str, trigger: &str) -> (b: bool)
    ensures
        b == (!reactor_is_bot && emoji@ == trigger@),
{
    if reactor_is_bot {
        return false;
    }
    let e = chars_of(emoji);
    let t = chars_of(trigger);
    same_chars(&e, &t)
}

/// The trigger emoji of a server that has stored none: the play sign.
pub open spec fn default_trigger() -> Seq<char> {
    "\u{25B6}"@
}

/// The trigger emoji of a server: the one it stored, or the default.
pub fn trigger_for(stored: Option<String>) -> (t: String)
    ensures
        t@ == match stored {
            Some(e) => e@,
            None => default_trigger(),
        },
{
    match stored {
        Some(e) => e,
        None => String::from_str("\u{25B6}"),
    }
}

/// A reaction on the output deletes it when it is the wastebasket.
pub fn is_trash(emoji: &str) -> (b: bool)
    ensures
        b == (emoji@ == trash_emoji()),
{
    let e = chars_of(emoji);
    let m: Vec<char> = vec!['\u{1F5D1}', '\u{FE0F}'];
    assert(m@ =~= trash_emoji());
    same_chars(&e, &m)
}

/// Where a message is cut into its argument text and its code text: at the
/// first fence, or at the start when there is none.
pub open spec fn message_cut(s: Seq<char>) -> int {
    let f = find(s, fence());
    if f >= 0 {
        f
    } else {
        0
    }
}

/// Cuts a message into the text before its first fence (the arguments) and
/// the rest (the code blocks); with no fence, all of it is the rest.
pub fn split_message(content: &str) -> (r: (String, String))
    ensures
        r.0@ == content@.subrange(0, message_cut(content@)),
        r.1@ == content@.subrange(message_cut(content@), content@.len() as int),
{
    let v = chars_of(content);
    let f: Vec<char> = vec!['`', '`', '`'];
    assert(f@ =~= fence());
    let cut: usize = match find_exec(&v, &f, 0) {
        Some(p) => {
            proof {
                crate::text::lemma_find_from_hit(v@, f@, 0);
            }
            p
        },
        None => 0,
    };
    (string_of(&v, 0, cut), string_of(&v, cut, v.len()))
}

/// The argument text and the code text of a message make up the message.
pub proof fn lemma_split_message_rejoins(s: Seq<char>)
    ensures
        0 <= message_cut(s) <= s.len(),
        s.subrange(0, message_cut(s)) + s.subrange(message_cut(s), s.len() as int) == s,
{
    let f = find(s, fence());
    if f >= 0 {
        crate::text::lemma_find_from_hit(s, fence(), 0);
    }
    assert(s.subrange(0, message_cut(s)) + s.subrange(message_cut(s), s.len() as int) =~= s);
}

/// The code text of a message has the same code blocks as the whole
/// message: cutting off the arguments loses no block.
pub proof fn lemma_code_text_keeps_blocks(s: Seq<char>)
    ensures
        codeblocks(s.subrange(message_cut(s), s.len() as int)) == codeblocks(s),
{
    let d = fence();
    let f = find(s, d);
    if f < 0 {
        assert(s.subrange(0, s.len() as int) =~= s);
    } else {
        crate::text::lemma_find_from_hit(s, d, 0);
        let a = s.subrange(0, f);
        let t = s.subrange(f, s.len() as int);
        assert(a + t =~= s);
        assert forall|k: int| 0 <= k < f implies !occurs_at(s, d, k) by {
            crate::text::lemma_find_from_first(s, d, 0, k);
        }
        crate::text::lemma_split_skip(s, d, 0, 0, f);
        crate::text::lemma_split_shift(a, t, d, 3, 3);
        assert(t.subrange(0, 3) =~= s.subrange(f, f + 3));
        assert(occurs_at(t, d, 0));
        let ps = split(s, d);
        let pt = split(t, d);
        assert(ps == seq![a] + split_from(t, d, 3, 3));
        assert(pt == seq![t.subrange(0, 0)] + split_from(t, d, 3, 3));
        assert(ps.len() == pt.len());
        assert forall|i: int| 1 <= i < ps.len() implies ps[i] == pt[i] by {}
        if (ps.len() - 1) % 2 == 0 {
            assert(Seq::new(((ps.len() - 1) / 2) as nat, |k: int| ps[2 * k + 1]) =~= Seq::new(
                ((pt.len() - 1) / 2) as nat,
                |k: int| pt[2 * k + 1],
            ));
        }
    }
}

/// The message for an answer that names a block past the last one.
pub open spec fn too_high_message(n: usize) -> Seq<char> {
    "Sorry, that's too high"@ + (if n == 69 {
        " but, nice anyway"@
    } else {
        Seq::empty()
    }) + ". Cancelled."@
}

/// Which of `count` code blocks the answer `answer` picks (counted from 1),
/// as an index from 0; a refusal message when the answer is not a number or
/// is past the last block. The answer `0` is not accepted.
pub open spec fn block_choice(answer: Seq<char>, count: usize) -> Result<usize, Seq<char>> {
    match parse_usize(answer) {
        None => Err("Sorry, that's an invalid response. Cancelled."@),
        Some(n) => if n > count {
            Err(too_high_message(n))
        } else {
            Ok((n - 1) as usize)
        },
    }
}

/// Reads the answer to "which block?" (see `block_choice`).
pub fn choose_block(answer: &str, count: usize) -> (r: Result<usize, String>)
    requires
        parse_usize(answer@) != Some(0usize),
    ensures
        match r {
            Ok(i) => block_choice(answer@, count) == Ok::<usize, Seq<char>>(i),
            Err(e) => block_choice(answer@, count) == Err::<usize, Seq<char>>(e@),
        },
{
    let v = chars_of(answer);
    match parse_usize_exec(&v) {
        None => Err(String::from_str("Sorry, that's an invalid response. Cancelled.")),
        Some(n) => {
            if n > count {
                let mut m = String::from_str("Sorry, that's too high");
                if n == 69 {
                    m.append(" but, nice anyway");
                }
                m.append(". Cancelled.");
                Err(m)
            } else {
                Ok(n - 1)
            }
        },
    }
}

/// Which of `count` blocks runs once the author was asked to pick one: the
/// one their reply names (see `block_choice`), or the first when no reply
/// came in time.
pub fn block_after_reply(reply: Option<&str>, count: usize) -> (r: Result<usize, String>)
    requires
        reply matches Some(a) ==> parse_usize(a@) != Some(0usize),
    ensures
        match reply {
            None => r matches Ok(i) && i == 0,
            Some(a) => match r {
                Ok(i) => block_choice(a@, count) == Ok::<usize, Seq<char>>(i),
                Err(e) => block_choice(a@, count) == Err::<usize, Seq<char>>(e@),
            },
        },
{
    match reply {
        None => Ok(0),
        Some(a) => choose_block(a, count),
    }
}

/// The value of parameter `key`, or `default`.
pub open spec fn param_or(
    params: Map<Seq<char>, String>,
    key: Seq<char>,
    default: Seq<char>,
) -> Seq<char> {
    if params.contains_key(key) {
        params[key]@
    } else {
        default
    }
}

/// Looks up parameter `key`, falling back to `default`.
fn param_or_exec(params: &StringHashMap<String>, key: &str, default: &str) -> (r: String)
    ensures
        r@ == param_or(params@, key@, default@),
{
    match params.get(key) {
        Some(v) => v.clone(),
        None => String::from_str(default),
    }
}

/// What a run uses: the language, the standard input and the compiler.
pub struct RunSettings {
    pub lang: String,
    pub input: String,
    pub compiler: String,
}

/// The settings of a run: parameter `l` overrides the language of the code
/// block, `i` gives the input (empty by default) and `c` the compiler
/// (`rex` by default).
pub fn run_settings(params: &StringHashMap<String>, block_lang: &str) -> (r: RunSettings)
    ensures
        r.lang@ == param_or(params@, "l"@, block_lang@),
        r.input@ == param_or(params@, "i"@, ""@),
        r.compiler@ == param_or(params@, "c"@, "rex"@),
{
    RunSettings {
        lang: param_or_exec(params, "l", block_lang),
        input: param_or_exec(params, "i", ""),
        compiler: param_or_exec(params, "c", "rex"),
    }
}

/// The compilers a run can go to.
pub enum Compiler {
    Rextester,
    Tio,
    Wandbox,
}

/// The compiler a name selects.
pub open spec fn compiler_named(name: Seq<char>) -> Option<Compiler> {
    if name == "rex"@ || name == "rextester"@ || name == "rextester.com"@ {
        Some(Compiler::Rextester)
    } else if name == "tio"@ || name == "tio.run"@ {
        Some(Compiler::Tio)
    } else if name == "wand"@ || name == "wandbox"@ {
        Some(Compiler::Wandbox)
    } else {
        None
    }
}

/// Whether `name` is `lit`.
fn is_named(name: &Vec<char>, lit: &str) -> (b: bool)
    ensures
        b == (name@ == lit@),
{
    let l = chars_of(lit);
    same_chars(name, &l)
}

/// Selects the compiler a name stands for (see `compiler_named`).
pub fn compiler_choice(name: &str) -> (r: Option<Compiler>)
    ensures
        r == compiler_named(name@),
{
    let n = chars_of(name);
    if is_named(&n, "rex") || is_named(&n, "rextester") || is_named(&n, "rextester.com") {
        Some(Compiler::Rextester)
    } else if is_named(&n, "tio") || is_named(&n, "tio.run") {
        Some(Compiler::Tio)
    } else if is_named(&n, "wand") || is_named(&n, "wandbox") {
        Some(Compiler::Wandbox)
    } else {
        None
    }
}

/// The language a compiler runs for `lang`: `lang` itself when the compiler
/// lists it, else the language `lang` is an alias of, else none.
pub open spec fn resolved_language(
    lang: Seq<char>,
    langs: Set<Seq<char>>,
    aliases: Map<Seq<char>, String>,
) -> Option<Seq<char>> {
    if langs.contains(lang) {
        Some(lang)
    } else if aliases.contains_key(lang) {
        Some(aliases[lang]@)
    } else {
        None
    }
}

/// Resolves a language name against a compiler's languages and aliases
/// (see `resolved_language`).
pub fn resolve_language(lang: &str, langs: &StringHashSet, aliases: &StringHashMap<String>) -> (r:
    Option<String>)
    ensures
        match r {
            Some(l) => resolved_language(lang@, langs@, aliases@) == Some(l@),
            None => resolved_language(lang@, langs@, aliases@) is None,
        },
{
    if langs.contains(lang) {
        Some(String::from_str(lang))
    } else {
        match aliases.get(lang) {
            Some(a) => Some(a.clone()),
            None => None,
        }
    }
}

/// The message for a language the compiler cannot run.
pub open spec fn unsupported_message(lang: Seq<char>) -> Seq<char> {
    "The language `"@ + lang + "` cannot be compiled."@
}

/// Builds the message for a language the compiler cannot run.
pub fn unsupported_language_message(lang: &str) -> (r: String)
    ensures
        r@ == unsupported_message(lang@),
{
    let mut m = String::from_str("The language `");
    m.append(lang);
    m.append("` cannot be compiled.");
    m
}

/// What a run produced: its output, its error text (empty when there was
/// none) and a line of statistics.
pub struct RunOutcome {
    pub output: String,
    pub error: String,
    pub stats: String,
}

/// The text of an optional field, empty when absent.
pub open spec fn text_or_empty(t: Option<String>) -> Seq<char> {
    match t {
        Some(s) => s@,
        None => Seq::empty(),
    }
}

/// The text of an optional field, empty when absent.
fn take_or_empty(t: &Option<String>) -> (r: String)
    ensures
        r@ == text_or_empty(*t),
{
    match t {
        Some(s) => s.clone(),
        None => String::new(),
    }
}

/// The outcome of a rextester reply: the result, the warnings and the
/// errors one after the other, and the statistics; the error text stays
/// empty (rextester's errors are part of the output).
pub fn rextester_outcome(resp: &rextester::client::ApiResponse) -> (r: RunOutcome)
    ensures
        r.output@ == text_or_empty(resp.Result) + text_or_empty(resp.Warnings) + text_or_empty(
            resp.Errors,
        ),
        r.error@ == Seq::<char>::empty(),
        r.stats@ == text_or_empty(resp.Stats),
{
    let mut output = take_or_empty(&resp.Result);
    output.append(take_or_empty(&resp.Warnings).as_str());
    output.append(take_or_empty(&resp.Errors).as_str());
    RunOutcome { output, error: String::new(), stats: take_or_empty(&resp.Stats) }
}

/// The status of a wandbox reply, `0` when absent.
pub open spec fn wandbox_status(resp: wandbox::client::ApiResponse) -> Seq<char> {
    match resp.status {
        Some(s) => s@,
        None => "0"@,
    }
}

/// The outcome of a wandbox reply: the program's messages; an error marker
/// `err` unless the status is `0`; the status as statistics.
pub fn wandbox_outcome(resp: &wandbox::client::ApiResponse) -> (r: RunOutcome)
    ensures
        r.output@ == text_or_empty(resp.program_message),
        r.error@ == (if wandbox_status(*resp) == "0"@ {
            ""@
        } else {
            "err"@
        }),
        r.stats@ == "Status code: "@ + wandbox_status(*resp),
{
    let status = match &resp.status {
        Some(s) => s.clone(),
        None => String::from_str("0"),
    };
    let st = chars_of(status.as_str());
    let error = if is_named(&st, "0") {
        String::from_str("")
    } else {
        String::from_str("err")
    };
    let mut stats = String::from_str("Status code: ");
    stats.append(status.as_str());
    RunOutcome { output: take_or_empty(&resp.program_message), error, stats }
}

/// The wandbox request for running `code` as `lang`: no options, not saved.
pub fn wandbox_request(code: String, lang: String) -> (r: wandbox::client::ApiRequest)
    ensures
        r.code == code,
        r.compiler == lang,
        r.options@ == ""@,
        r.compiler_options_raw@ == ""@,
        !r.save,
{
    wandbox::client::ApiRequest::new(code, lang, String::from_str(""), String::from_str(""), false)
}

/// The bytes tio is sent: the zlib stream without its 2-byte header and its
/// 4-byte checksum, that is, the raw deflate data.
pub fn tio_payload(compressed: &Vec<u8>) -> (r: Vec<u8>)
    requires
        compressed@.len() >= 6,
    ensures
        r@ == compressed@.subrange(2, compressed@.len() - 4),
{
    let mut r: Vec<u8> = Vec::new();
    let end = compressed.len() - 4;
    let mut i: usize = 2;
    while i < end
        invariant
            2 <= i <= end == compressed@.len() - 4,
            r@ == compressed@.subrange(2, i as int),
        decreases end - i,
    {
        r.push(compressed[i]);
        i = i + 1;
        assert(r@ =~= compressed@.subrange(2, i as int));
    }
    r
}

/// The run token of a tio reply: its first 16 bytes.
pub open spec fn tio_token(s: Seq<char>) -> Seq<char> {
    decode_utf8(encode_utf8(s).subrange(0, 16))
}

/// A tio reply can be read: its first 16 bytes are whole characters, and
/// cutting it at that token gives at least four pieces.
pub open spec fn tio_readable(s: Seq<char>) -> bool {
    is_char_boundary(encode_utf8(s), 16) && split(s, tio_token(s)).len() >= 4
}

/// `s` with every line break replaced by a comma and a space.
pub open spec fn replace_newlines(s: Seq<char>) -> Seq<char>
    decreases s.len(),
{
    if s.len() == 0 {
        Seq::empty()
    } else {
        replace_newlines(s.drop_last()) + if s.last() == '\n' {
            seq![',', ' ']
        } else {
            seq![s.last()]
        }
    }
}

/// The error text and the statistics of the statistics piece of a tio
/// reply: the part before its last blank line, and the part after it
/// (trimmed, its line breaks turned into `, `); with no blank line, no
/// error and all of it.
pub open spec fn tio_error_and_stats(tail: Seq<char>) -> (Seq<char>, Seq<char>) {
    let q = rfind(tail, seq!['\n', '\n']);
    if q >= 0 {
        (tail.subrange(0, q), replace_newlines(trim(tail.subrange(q + 2, tail.len() as int))))
    } else {
        (Seq::empty(), replace_newlines(trim(tail)))
    }
}

/// Replacing the line breaks leaves none.
pub proof fn lemma_replace_newlines_flat(s: Seq<char>)
    ensures
        !replace_newlines(s).contains('\n'),
    decreases s.len(),
{
    if s.len() > 0 {
        lemma_replace_newlines_flat(s.drop_last());
        let a = replace_newlines(s.drop_last());
        let b = if s.last() == '\n' {
            seq![',', ' ']
        } else {
            seq![s.last()]
        };
        assert(replace_newlines(s) == a + b);
        assert forall|i: int| 0 <= i < (a + b).len() implies (a + b)[i] != '\n' by {
            if i < a.len() {
                assert((a + b)[i] == a[i]);
            }
        }
    }
}

/// The output of a tio run ends with its error text.
pub proof fn lemma_tio_output_ends_with_error(s: Seq<char>)
    ensures
        ({
            let (out, err, _) = tio_parts(s);
            &&& err.len() <= out.len()
            &&& out.subrange(out.len() - err.len(), out.len() as int) == err
        }),
{
    let (out, err, _) = tio_parts(s);
    assert(out.subrange(out.len() - err.len(), out.len() as int) =~= err);
}

/// The error text of a tio statistics piece runs up to its last blank
/// line: when the piece holds a blank line, the error text is what comes
/// before one, no blank line comes after that one, and the statistics are
/// read from the rest; with no blank line, there is no error text.
pub proof fn lemma_tio_error_before_last_blank_line(tail: Seq<char>)
    ensures
        ({
            let (err, stats) = tio_error_and_stats(tail);
            let blank = seq!['\n', '\n'];
            &&& (exists|k: int| #[trigger] occurs_at(tail, blank, k)) ==> {
                &&& tail.subrange(0, err.len() as int) == err
                &&& occurs_at(tail, blank, err.len() as int)
                &&& forall|k: int| err.len() < k ==> !#[trigger] occurs_at(tail, blank, k)
                &&& stats == replace_newlines(trim(tail.subrange(err.len() + 2int, tail.len() as int)))
            }
            &&& !(exists|k: int| #[trigger] occurs_at(tail, blank, k)) ==> err.len() == 0
                && stats == replace_newlines(trim(tail))
            &&& !stats.contains('\n')
        }),
{
    if rfind(tail, seq!['\n', '\n']) >= 0 {
        lemma_replace_newlines_flat(trim(tail.subrange(rfind(tail, seq!['\n', '\n']) + 2int, tail.len() as int)));
    } else {
        lemma_replace_newlines_flat(trim(tail));
    }
    let blank = seq!['\n', '\n'];
    let q = rfind(tail, blank);
    let i = tail.len() - blank.len();
    assert forall|k: int| q < k implies !occurs_at(tail, blank, k) by {
        if k <= i {
            crate::text::lemma_rfind_from_last(tail, blank, i, k);
        }
    }
    if q != -1 {
        crate::text::lemma_rfind_hit(tail, blank);
        crate::text::lemma_rfind_from_hit(tail, blank, i);
    } else {
        assert(!(exists|k: int| #[trigger] occurs_at(tail, blank, k)));
    }
}

/// The outcome of a decompressed tio reply: cut at its run token, the
/// third-to-last piece is the output and the second-to-last the error text
/// and statistics; the output is followed by the error text.
pub open spec fn tio_parts(s: Seq<char>) -> (Seq<char>, Seq<char>, Seq<char>) {
    let p = split(s, tio_token(s));
    let (err, stats) = tio_error_and_stats(p[p.len() - 2]);
    (p[p.len() - 3] + err, err, stats)
}

/// Builds `replace_newlines(v)`.
fn replace_newlines_exec(v: &Vec<char>) -> (r: String)
    ensures
        r@ == replace_newlines(v@),
{
    let mut r = String::new();
    let mut i: usize = 0;
    while i < v.len()
        invariant
            i <= v@.len(),
            r@ == replace_newlines(v@.take(i as int)),
        decreases v@.len() - i,
    {
        let ghost before = r@;
        if v[i] == '\n' {
            push_char(&mut r, ',');
            push_char(&mut r, ' ');
        } else {
            push_char(&mut r, v[i]);
        }
        assert(v@.take(i + 1).drop_last() =~= v@.take(i as int));
        assert(r@ =~= replace_newlines(v@.take(i + 1)));
        i = i + 1;
    }
    assert(v@.take(i as int) =~= v@);
    r
}

/// Reads a decompressed tio reply (see `tio_parts`).
pub fn tio_outcome(reply: &str) -> (r: RunOutcome)
    requires
        tio_readable(reply@),
    ensures
        (r.output@, r.error@, r.stats@) == tio_parts(reply@),
{
    let (tok, _rest) = reply.split_at(16);
    let t = chars_of(tok);
    proof {
        vstd::utf8::encode_utf8_decode_utf8(tok@);
    }
    assert(t@ == tio_token(reply@));
    let v = chars_of(reply);
    if t.len() == 0 {
        assert(split(v@, t@) =~= seq![v@.subrange(0, v@.len() as int)]);
        assert(false);
    }
    let pr = split_ranges(&v, &t);
    let ghost p = split(v@, t@);
    assert(p == split(reply@, tio_token(reply@)));
    assert(p.len() >= 4);
    assert(pieces(v@, pr@).len() == pr@.len());
    let n = pr.len();
    assert(n >= 4);
    assert(crate::text::ranges_within(v@, pr@));
    let ghost k2: int = n - 2;
    let ghost k3: int = n - 3;
    assert(0 <= k3 < k2 < pr@.len());
    assert(pr@[k2].0 <= pr@[k2].1);
    assert(pr@[k2].1 <= v@.len());
    assert(pr@[k3].0 <= pr@[k3].1);
    assert(pr@[k3].1 <= v@.len());
    assert(pieces(v@, pr@)[n - 2] == p[n - 2]);
    assert(pieces(v@, pr@)[n - 3] == p[n - 3]);
    let tail = sub_vec(&v, pr[n - 2].0, pr[n - 2].1);
    let out = sub_vec(&v, pr[n - 3].0, pr[n - 3].1);
    let blank: Vec<char> = vec!['\n', '\n'];
    assert(blank@ =~= seq!['\n', '\n']);
    let (err, st) = match rfind_exec(&tail, &blank) {
        Some(q) => {
            proof {
                crate::text::lemma_rfind_hit(tail@, blank@);
            }
            (sub_vec(&tail, 0, q), sub_vec(&tail, q + 2, tail.len()))
        },
        None => (Vec::new(), sub_vec(&tail, 0, tail.len())),
    };
    assert(tail@.subrange(0, tail@.len() as int) =~= tail@);
    let stats = replace_newlines_exec(&trim_vec(&st));
    let mut output = string_from(&out);
    append_chars(&mut output, &err);
    let error = string_from(&err);
    assert(err@ == tio_error_and_stats(p[n - 2]).0);
    RunOutcome { output, error, stats }
}

/// The rextester language of `lang`: its language number, as text, and the
/// compiler arguments for that number (empty when there are none); none
/// when `lang` is not in the language map.
pub open spec fn rextester_target_of(
    lang: Seq<char>,
    lang_ids: Map<Seq<char>, usize>,
    id_args: Map<usize, String>,
) -> Option<(Seq<char>, Seq<char>)> {
    if lang_ids.contains_key(lang) {
        let id = lang_ids[lang];
        Some(
            (
                decimal(id as nat),
                if id_args.contains_key(id) {
                    id_args[id]@
                } else {
                    Seq::empty()
                },
            ),
        )
    } else {
        None
    }
}

/// Looks up the rextester language of `lang` (see `rextester_target_of`).
pub fn rextester_target(
    lang: &str,
    lang_ids: &StringHashMap<usize>,
    id_args: &HashMap<usize, String>,
) -> (r: Option<(String, String)>)
    ensures
        match r {
            Some((id, args)) => rextester_target_of(lang@, lang_ids@, id_args@) == Some(
                (id@, args@),
            ),
            None => rextester_target_of(lang@, lang_ids@, id_args@) is None,
        },
{
    match lang_ids.get(lang) {
        None => None,
        Some(id) => {
            let args = match id_args.get(id) {
                Some(a) => a.clone(),
                None => String::new(),
            };
            Some((decimal_string(*id), args))
        },
    }
}

/// The output as shown in a message: `NO OUTPUT` when empty, the whole of
/// it when shorter than 1950 bytes, else its first 1950 bytes.
pub open spec fn output_excerpt(out: Seq<char>) -> Seq<char> {
    let b = encode_utf8(out);
    if out.len() == 0 {
        "NO OUTPUT"@
    } else if b.len() < 1950 {
        out
    } else {
        decode_utf8(b.subrange(0, 1950))
    }
}

/// The output can be cut to its first 1950 bytes without splitting a
/// character (or needs no cut).
pub open spec fn output_cuttable(out: Seq<char>) -> bool {
    encode_utf8(out).len() < 1950 || is_char_boundary(encode_utf8(out), 1950)
}

/// The description of a run: the output excerpt in a code block highlighted
/// as parameter `h` says (`css` by default).
pub open spec fn description(params: Map<Seq<char>, String>, out: Seq<char>) -> Seq<char> {
    "```"@ + param_or(params, "h"@, "css"@) + "\n"@ + output_excerpt(out) + "```"@
}

/// Builds the description of a run (see `description`).
pub fn describe_output(params: &StringHashMap<String>, output: &str) -> (r: String)
    requires
        output_cuttable(output@),
    ensures
        r@ == description(params@, output@),
{
    let mut d = String::from_str("```");
    d.append(param_or_exec(params, "h", "css").as_str());
    d.append("\n");
    if output.is_empty() {
        d.append("NO OUTPUT");
    } else if output.as_bytes().len() < 1950 {
        d.append(output);
    } else {
        let (head, _rest) = output.split_at(1950);
        proof {
            vstd::utf8::encode_utf8_decode_utf8(head@);
        }
        d.append(head);
    }
    d.append("```");
    d
}

/// How the result of a run is sent.
pub enum Delivery {
    /// As a file with this name, holding the whole output.
    File { name: String },
    /// As a plain message holding the description.
    Plain,
    /// As an embed holding the description and the statistics, in this colour.
    Embed { color: u32 },
}

/// The embed colour: green after a run without error text, amber otherwise.
pub open spec fn embed_color(error: Seq<char>) -> u32 {
    if error.len() == 0 {
        0x00BA9C
    } else {
        0xFFCF24
    }
}

/// Chooses how to send the result: flag `--file` sends a file named
/// `output.` and parameter `e` (`txt` by default); otherwise flag
/// `--clean` sends a plain message; otherwise an embed.
pub fn delivery(flags: &StringHashSet, params: &StringHashMap<String>, error: &str) -> (r:
    Delivery)
    ensures
        match r {
            Delivery::File { name } => flags@.contains("file"@) && name@ == "output."@
                + param_or(params@, "e"@, "txt"@),
            Delivery::Plain => !flags@.contains("file"@) && flags@.contains("clean"@),
            Delivery::Embed { color } => !flags@.contains("file"@) && !flags@.contains("clean"@)
                && color == embed_color(error@),
        },
{
    if flags.contains("file") {
        let mut name = String::from_str("output.");
        name.append(param_or_exec(params, "e", "txt").as_str());
        Delivery::File { name }
    } else if flags.contains("clean") {
        Delivery::Plain
    } else {
        let color: u32 = if error.is_empty() {
            0x00BA9C
        } else {
            0xFFCF24
        };
        Delivery::Embed { color }
    }
}

/// A notice posted in the channel when a run cannot go on, or when the
/// author is asked which block to run.
pub enum Notice {
    /// The argument text was refused; carries the parser's message.
    ArgumentParser(String),
    /// The code blocks were refused; carries the parser's message.
    CodeblockParser(String),
    /// The message holds this many blocks: which one should run?
    WhichBlock(usize),
    /// The chosen block names no language.
    NoLanguage,
    /// A compiler service could not be reached or answered badly.
    Client(String),
    /// The tio request failed.
    TioRequest(String),
    /// tio answered with a status other than OK.
    ServerStatus,
    /// The `compiler` parameter names no known compiler.
    InvalidCompiler,
    /// The output could not be posted.
    SendFailed,
}

/// The text of a notice.
pub open spec fn notice_message(n: Notice) -> Seq<char> {
    match n {
        Notice::ArgumentParser(e) => "**ArgumentParserError:** "@ + e@,
        Notice::CodeblockParser(e) => "**CodeblockParserError:** "@ + e@,
        Notice::WhichBlock(count) => "Which one do you want to run? Enter number from 1 to "@
            + decimal(count as nat) + "."@,
        Notice::NoLanguage => "Looks like you forgot to mention the language lol."@,
        Notice::Client(e) => "**ClientError:** "@ + e@,
        Notice::TioRequest(e) => "failed to do the tio request "@ + e@,
        Notice::ServerStatus => "**ServerError:** returned non Ok status."@,
        Notice::InvalidCompiler => "invalid compiler name"@,
        Notice::SendFailed => "Failed to send the message"@,
    }
}

/// Writes out a notice.
pub fn notice_text(n: &Notice) -> (r: String)
    ensures
        r@ == notice_message(*n),
{
    match n {
        Notice::ArgumentParser(e) => {
            let mut m = String::from_str("**ArgumentParserError:** ");
            m.append(e.as_str());
            m
        },
        Notice::CodeblockParser(e) => {
            let mut m = String::from_str("**CodeblockParserError:** ");
            m.append(e.as_str());
            m
        },
        Notice::WhichBlock(count) => {
            let mut m = String::from_str("Which one do you want to run? Enter number from 1 to ");
            let d = decimal_string(*count);
            m.append(d.as_str());
            m.append(".");
            m
        },
        Notice::NoLanguage => String::from_str("Looks like you forgot to mention the language lol."),
        Notice::Client(e) => {
            let mut m = String::from_str("**ClientError:** ");
            m.append(e.as_str());
            m
        },
        Notice::TioRequest(e) => {
            let mut m = String::from_str("failed to do the tio request ");
            m.append(e.as_str());
            m
        },
        Notice::ServerStatus => String::from_str("**ServerError:** returned non Ok status."),
        Notice::InvalidCompiler => String::from_str("invalid compiler name"),
        Notice::SendFailed => String::from_str("Failed to send the message"),
    }
}

} // verus!
