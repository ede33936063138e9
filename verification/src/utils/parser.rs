//! Parsing of a chat message: its command-line style arguments, its
//! fenced code blocks, and the language tag of a code block.

use vstd::prelude::*;
use vstd::hash_map::StringHashMap;
use vstd::hash_set::StringHashSet;
use crate::text::{
    lemma_find_from_first, lemma_split_shift, lemma_split_skip, split_from,
    chars_of, find, find_exec, lemma_find_from_hit, occurs_at, pieces, ranges_within, split,
    split_ranges, starts_with, starts_with_exec, string_of,
};

verus! {

/// What `shlex::split` (version 1.3) returns for `s`: the words of `s`
/// split with POSIX shell quoting rules, or `None` when `s` ends inside a
/// quotation or right after an unescaped backslash.
pub uninterp spec fn shlex_words(s: Seq<char>) -> Option<Seq<Seq<char>>>;

/// The views of a sequence of strings.
pub open spec fn views(v: Seq<String>) -> Seq<Seq<char>> {
    v.map_values(|w: String| w@)
}

/// The views of the values of a map to strings.
pub open spec fn value_views(m: Map<Seq<char>, String>) -> Map<Seq<char>, Seq<char>> {
    m.map_values(|w: String| w@)
}

/// Splits `s` into shell words with `shlex::split`.
/// Trusted: the result is the one `shlex::split` computes, named
/// `shlex_words`; nothing more about that function is claimed.
#[verifier::external_body]
fn shlex_split(s: &str) -> (r: Option<Vec<String>>)
    ensures
        match r {
            Some(v) => shlex_words(s@) == Some(views(v@)),
            None => shlex_words(s@) is None,
        },
{
    shlex::split(s)
}

/// The result of reading the arguments of a message: the `-name value`
/// parameters, the plain inputs and the `--flag`s.
pub type ArgsView = (Map<Seq<char>, Seq<char>>, Seq<Seq<char>>, Set<Seq<char>>);

/// The text of the error for a `-name` parameter that has no value.
pub open spec fn missing_value_message(name: Seq<char>) -> Seq<char> {
    "Got no value for argument '"@ + name + "'"@
}

/// The arguments read from the first `k` tokens of `t`: a token that starts
/// with `--` adds the rest of it as a flag; one that starts with `-` sets the
/// parameter named by the rest of it to the following token (which is still
/// read as a token of its own), and fails when there is no following token;
/// any other token is an input.
pub open spec fn args_upto(t: Seq<Seq<char>>, k: int) -> Result<ArgsView, Seq<char>>
    decreases k,
{
    if k <= 0 {
        Ok((Map::empty(), Seq::empty(), Set::empty()))
    } else {
        match args_upto(t, k - 1) {
            Err(e) => Err(e),
            Ok((p, i, f)) => {
                let tok = t[k - 1];
                if starts_with(tok, seq!['-', '-']) {
                    Ok((p, i, f.insert(tok.skip(2))))
                } else if starts_with(tok, seq!['-']) {
                    if k < t.len() {
                        Ok((p.insert(tok.skip(1), t[k]), i, f))
                    } else {
                        Err(missing_value_message(tok.skip(1)))
                    }
                } else {
                    Ok((p, i.push(tok), f))
                }
            },
        }
    }
}

/// The arguments read from all the tokens `t`.
pub open spec fn args_of_tokens(t: Seq<Seq<char>>) -> Result<ArgsView, Seq<char>> {
    args_upto(t, t.len() as int)
}

/// The arguments of the message text `s`.
pub open spec fn args_of(s: Seq<char>) -> Result<ArgsView, Seq<char>> {
    match shlex_words(s) {
        None => Err("Missing closing quotation"@),
        Some(t) => args_of_tokens(t),
    }
}

/// The arguments that an executable result stands for.
pub open spec fn args_result_view(
    r: Result<(StringHashMap<String>, Vec<String>, StringHashSet), String>,
) -> Result<ArgsView, Seq<char>> {
    match r {
        Ok((p, i, f)) => Ok((value_views(p@), views(i@), f@)),
        Err(e) => Err(e@),
    }
}

/// Reads already split tokens as arguments (see `args_upto`).
pub fn parse_arg_tokens(tokens: &Vec<String>) -> (r: Result<
    (StringHashMap<String>, Vec<String>, StringHashSet),
    String,
>)
    ensures
        args_result_view(r) == args_of_tokens(views(tokens@)),
{
    let ghost t = views(tokens@);
    let mut params: StringHashMap<String> = StringHashMap::new();
    let mut inputs: Vec<String> = Vec::new();
    let mut flags = StringHashSet::new();
    let dash2: Vec<char> = vec!['-', '-'];
    let dash1: Vec<char> = vec!['-'];
    let mut k: usize = 0;
    assert(value_views(params@) =~= Map::empty());
    assert(views(inputs@) =~= Seq::empty());
    while k < tokens.len()
        invariant
            k <= tokens@.len(),
            t == views(tokens@),
            dash2@ == seq!['-', '-'],
            dash1@ == seq!['-'],
            args_upto(t, k as int) == Ok::<ArgsView, Seq<char>>(
                (value_views(params@), views(inputs@), flags@),
            ),
        decreases tokens@.len() - k,
    {
        let tok = chars_of(tokens[k].as_str());
        assert(tok@ == t[k as int]);
        if starts_with_exec(&tok, &dash2) {
            let name = string_of(&tok, 2, tok.len());
            assert(name@ =~= tok@.skip(2));
            flags.insert(name);
        } else if starts_with_exec(&tok, &dash1) {
            let name = string_of(&tok, 1, tok.len());
            assert(name@ =~= tok@.skip(1));
            if k + 1 < tokens.len() {
                let ghost before = params@;
                params.insert(name, tokens[k + 1].clone());
                assert(value_views(params@) =~= value_views(before).insert(
                    tok@.skip(1),
                    t[k + 1],
                ));
            } else {
                let mut msg = String::from_str("Got no value for argument '");
                msg.append(name.as_str());
                msg.append("'");
                assert(args_upto(t, (k + 1) as int) == Err::<ArgsView, Seq<char>>(msg@));
                proof {
                    lemma_args_error_persists(t, (k + 1) as int, t.len() as int);
                }
                return Err(msg);
            }
        } else {
            let ghost before = inputs@;
            inputs.push(tokens[k].clone());
            assert(views(inputs@) =~= views(before).push(t[k as int]));
        }
        k = k + 1;
    }
    Ok((params, inputs, flags))
}

/// Once reading fails, it fails with the same error on any longer prefix.
proof fn lemma_args_error_persists(t: Seq<Seq<char>>, k: int, m: int)
    requires
        0 < k <= m,
        args_upto(t, k) is Err,
    ensures
        args_upto(t, m) == args_upto(t, k),
    decreases m - k,
{
    if k < m {
        lemma_args_error_persists(t, k, m - 1);
    }
}

/// Reads the arguments of a message: splits it into shell words with
/// `shlex`, then reads the words (see `args_upto`). Fails with
/// `Missing closing quotation` when the words cannot be split.
pub fn parse_args(content: &str) -> (r: Result<
    (StringHashMap<String>, Vec<String>, StringHashSet),
    String,
>)
    ensures
        args_result_view(r) == args_of(content@),
{
    match shlex_split(content) {
        None => Err(String::from_str("Missing closing quotation")),
        Some(tokens) => parse_arg_tokens(&tokens),
    }
}

/// The code-fence marker.
pub open spec fn fence() -> Seq<char> {
    seq!['`', '`', '`']
}

/// The fenced code blocks of `s`: the pieces between the occurrences of
/// the fence at odd positions. Fails with `Unpaired` when the fences are
/// not paired (there is an odd number of them).
pub open spec fn codeblocks(s: Seq<char>) -> Result<Seq<Seq<char>>, Seq<char>> {
    let p = split(s, fence());
    if (p.len() - 1) % 2 != 0 {
        Err("Unpaired ```s"@)
    } else {
        Ok(Seq::new(((p.len() - 1) / 2) as nat, |k: int| p[2 * k + 1]))
    }
}

/// Collects the code blocks of a message (see `codeblocks`).
pub fn parse_codeblocks(content: &str) -> (r: Result<Vec<String>, String>)
    ensures
        match r {
            Ok(v) => codeblocks(content@) == Ok::<Seq<Seq<char>>, Seq<char>>(views(v@)),
            Err(e) => codeblocks(content@) == Err::<Seq<Seq<char>>, Seq<char>>(e@),
        },
{
    let v = chars_of(content);
    let f: Vec<char> = vec!['`', '`', '`'];
    assert(f@ =~= fence());
    let r = split_ranges(&v, &f);
    let ghost p = split(v@, fence());
    assert(pieces(v@, r@) == p);
    let count = r.len() - 1;
    if count % 2 != 0 {
        return Err(String::from_str("Unpaired ```s"));
    }
    let mut blocks: Vec<String> = Vec::new();
    let mut k: usize = 0;
    while k < count / 2
        invariant
            k <= count / 2,
            count == r@.len() - 1,
            ranges_within(v@, r@),
            pieces(v@, r@) == p,
            views(blocks@) == Seq::new(k as nat, |j: int| p[2 * j + 1]),
        decreases count / 2 - k,
    {
        let (lo, hi) = r[2 * k + 1];
        assert(r@[2 * k + 1].0 <= r@[2 * k + 1].1 <= v@.len());
        assert(pieces(v@, r@)[2 * k + 1] == v@.subrange(lo as int, hi as int));
        let b = string_of(&v, lo, hi);
        let ghost before = blocks@;
        blocks.push(b);
        assert(views(blocks@) =~= views(before).push(b@));
        assert(views(blocks@) =~= Seq::new((k + 1) as nat, |j: int| p[2 * j + 1]));
        k = k + 1;
    }
    Ok(blocks)
}

/// `p` holds no fence, not even one that a fence right after it would
/// complete: the first fence in `p` followed by a fence is that last one.
pub open spec fn fence_free(p: Seq<char>) -> bool {
    find(p + fence(), fence()) == p.len()
}

/// The text made of `parts` with a fence between each two of them.
pub open spec fn fenced(parts: Seq<Seq<char>>) -> Seq<char>
    decreases parts.len(),
{
    if parts.len() == 0 {
        Seq::empty()
    } else if parts.len() == 1 {
        parts[0]
    } else {
        parts[0] + fence() + fenced(parts.drop_first())
    }
}

/// Cutting at fences gives back the fence-free parts a text was made of.
proof fn lemma_split_fenced(parts: Seq<Seq<char>>)
    requires
        parts.len() >= 1,
        forall|i: int| 0 <= i < parts.len() ==> fence_free(#[trigger] parts[i]),
    ensures
        split(fenced(parts), fence()) == parts,
    decreases parts.len(),
{
    let d = fence();
    let p0 = parts[0];
    let l = p0.len() as int;
    assert(fence_free(parts[0]));
    assert forall|k: int| 0 <= k < l implies !occurs_at(p0 + d, d, k) by {
        lemma_find_from_first(p0 + d, d, 0, k);
    }
    if parts.len() == 1 {
        assert forall|k: int| 0 <= k < l implies !occurs_at(p0, d, k) by {
            if occurs_at(p0, d, k) {
                assert((p0 + d).subrange(k, k + 3) =~= p0.subrange(k, k + 3));
                assert(occurs_at(p0 + d, d, k));
            }
        }
        lemma_split_skip(p0, d, 0, 0, l);
        assert(p0.subrange(0, l) =~= p0);
        assert(split(fenced(parts), d) =~= parts);
    } else {
        let tail = parts.drop_first();
        let rest = fenced(tail);
        let s = p0 + d + rest;
        assert(fenced(parts) == s);
        assert forall|k: int| 0 <= k < l implies !occurs_at(s, d, k) by {
            assert(s.subrange(k, k + 3) =~= (p0 + d).subrange(k, k + 3));
            if occurs_at(s, d, k) {
                assert(occurs_at(p0 + d, d, k));
            }
        }
        lemma_split_skip(s, d, 0, 0, l);
        assert(s.subrange(l, l + 3) =~= d);
        assert(occurs_at(s, d, l));
        assert(s.subrange(0, l) =~= p0);
        lemma_split_shift(p0 + d, rest, d, 0, 0);
        assert((p0 + d).len() == l + 3);
        assert(split_from(s, d, l + 3, l + 3) == split(rest, d));
        assert forall|i: int| 0 <= i < tail.len() implies fence_free(#[trigger] tail[i]) by {
            assert(tail[i] == parts[i + 1]);
        }
        lemma_split_fenced(tail);
        assert(split(s, d) =~= seq![p0] + tail);
        assert(seq![p0] + tail =~= parts);
    }
}

/// A message made of fence-free parts with fences between them has as code
/// blocks the parts at odd positions (the second, the fourth, ...) when
/// the fences pair up, and is refused as unpaired otherwise.
pub proof fn lemma_codeblocks_of_fenced(parts: Seq<Seq<char>>)
    requires
        parts.len() >= 1,
        forall|i: int| 0 <= i < parts.len() ==> fence_free(#[trigger] parts[i]),
    ensures
        codeblocks(fenced(parts)) == if parts.len() % 2 == 1 {
            Ok::<Seq<Seq<char>>, Seq<char>>(
                Seq::new((parts.len() / 2) as nat, |k: int| parts[2 * k + 1]),
            )
        } else {
            Err::<Seq<Seq<char>>, Seq<char>>("Unpaired ```s"@)
        },
{
    lemma_split_fenced(parts);
}

/// The language tag and the code of a code block: the text before and
/// after its first line break. Fails when there is no line break.
pub open spec fn codeblock_lang(s: Seq<char>) -> Result<(Seq<char>, Seq<char>), Seq<char>> {
    let p = find(s, seq!['\n']);
    if p >= 0 {
        Ok((s.subrange(0, p), s.subrange(p + 1, s.len() as int)))
    } else {
        Err("The correct codeblock syntax is \\`\\`\\`lang\ncode\n\\`\\`\\`"@)
    }
}

/// The language tag, a line break and the code make up the code block, and
/// the tag holds no line break.
pub proof fn lemma_codeblock_lang_rejoins(s: Seq<char>)
    requires
        codeblock_lang(s) is Ok,
    ensures
        ({
            let (lang, code) = codeblock_lang(s)->Ok_0;
            &&& lang + seq!['\n'] + code == s
            &&& !lang.contains('\n')
        }),
{
    let d = seq!['\n'];
    let p = find(s, d);
    lemma_find_from_hit(s, d, 0);
    let (lang, code) = codeblock_lang(s)->Ok_0;
    assert(s.subrange(p, p + 1) =~= d);
    assert(lang + d + code =~= s);
    if lang.contains('\n') {
        let k = choose|k: int| 0 <= k < lang.len() && lang[k] == '\n';
        lemma_find_from_first(s, d, 0, k);
        assert(s.subrange(k, k + 1) =~= d);
    }
}

/// A message none of whose words starts with `-` has all its words as
/// inputs, and no parameters or flags.
pub proof fn lemma_plain_words_are_inputs(t: Seq<Seq<char>>)
    requires
        forall|i: int| 0 <= i < t.len() ==> !starts_with(#[trigger] t[i], seq!['-']),
    ensures
        args_of_tokens(t) == Ok::<ArgsView, Seq<char>>((Map::empty(), t, Set::empty())),
{
    lemma_plain_words_upto(t, t.len() as int);
    assert(t.take(t.len() as int) =~= t);
}

proof fn lemma_plain_words_upto(t: Seq<Seq<char>>, k: int)
    requires
        0 <= k <= t.len(),
        forall|i: int| 0 <= i < t.len() ==> !starts_with(#[trigger] t[i], seq!['-']),
    ensures
        args_upto(t, k) == Ok::<ArgsView, Seq<char>>((Map::empty(), t.take(k), Set::empty())),
    decreases k,
{
    if k > 0 {
        lemma_plain_words_upto(t, k - 1);
        let tok = t[k - 1];
        assert(!starts_with(tok, seq!['-']));
        if starts_with(tok, seq!['-', '-']) {
            assert(tok[0] == tok.subrange(0, 2)[0]);
            assert(tok.subrange(0, 1) =~= seq!['-']);
            assert(starts_with(tok, seq!['-']));
        }
        assert(t.take(k) =~= t.take(k - 1).push(tok));
    } else {
        assert(t.take(0) =~= Seq::<Seq<char>>::empty());
    }
}

/// Splits a code block into its language tag and its code (see
/// `codeblock_lang`).
pub fn parse_codeblock_lang(content: &str) -> (r: Result<(String, String), String>)
    ensures
        match r {
            Ok((lang, code)) => codeblock_lang(content@) == Ok::<
                (Seq<char>, Seq<char>),
                Seq<char>,
            >((lang@, code@)),
            Err(e) => codeblock_lang(content@) == Err::<(Seq<char>, Seq<char>), Seq<char>>(e@),
        },
{
    let v = chars_of(content);
    let nl: Vec<char> = vec!['\n'];
    assert(nl@ =~= seq!['\n']);
    match find_exec(&v, &nl, 0) {
        Some(p) => {
            assert(occurs_at(v@, nl@, p as int)) by {
                lemma_find_from_hit(v@, nl@, 0);
            }
            assert(p < v.len());
            Ok((string_of(&v, 0, p), string_of(&v, p + 1, v.len())))
        },
        None => Err(String::from_str("The correct codeblock syntax is \\`\\`\\`lang\ncode\n\\`\\`\\`")),
    }
}

} // verus!
