//! The wandbox.org compiler: its language table, its alias table, the
//! request it is sent and the reply it gives.

use vstd::prelude::*;
use vstd::hash_map::StringHashMap;
use vstd::hash_set::StringHashSet;
use crate::compilers::table::{
    append_chars, is_entry, is_entry_exec, read_entry_set, read_table_lines, table_entries,
    table_lines,
};
use crate::numeric::{decimal, decimal_string};
use crate::text::{
    chars_of, is_ws, pieces, ranges_within, string_from, sub_vec, trim, word_ranges,
    words, words_from,
};
use crate::utils::parser::value_views;

verus! {

/// The request the wandbox API is sent.
pub struct ApiRequest {
    pub compiler: String,
    pub code: String,
    pub options: String,
    pub compiler_options_raw: String,
    pub save: bool,
}

impl ApiRequest {
    /// The request to compile and run `code` with `compiler`.
    pub fn new(
        code: String,
        compiler: String,
        options: String,
        compiler_options_raw: String,
        save: bool,
    ) -> (r: ApiRequest)
        ensures
            r.code == code,
            r.compiler == compiler,
            r.options == options,
            r.compiler_options_raw == compiler_options_raw,
            r.save == save,
    {
        ApiRequest { compiler, code, options, compiler_options_raw, save }
    }
}

/// The reply of the wandbox API.
pub struct ApiResponse {
    pub status: Option<String>,
    pub compiler_message: Option<String>,
    pub program_message: Option<String>,
    pub compiler_error: Option<String>,
    pub program_output: Option<String>,
}

/// Reads the language table: the set of its entries, one per line (blank
/// lines and `#` comments skipped, entries trimmed). Never fails.
pub fn parse_langs(content: &str) -> (r: Result<StringHashSet, String>)
    ensures
        r matches Ok(s) && s@ == table_entries(content@),
{
    Ok(read_entry_set(content))
}

/// The error for an alias line that names a language and no alias.
pub open spec fn no_alias_message(n: nat, lang: Seq<char>) -> Seq<char> {
    "Error at line "@ + decimal(n) + ", no alias to set for lang `"@ + lang + "`"@
}

/// What line `n` (counted from 0) of the alias table says: nothing for a
/// blank or comment line; otherwise its whitespace-separated words are a
/// language followed by one or more aliases for it.
pub open spec fn alias_line(line: Seq<char>, n: nat) -> Result<
    Option<(Seq<char>, Seq<Seq<char>>)>,
    Seq<char>,
> {
    let t = trim(line);
    if !is_entry(t) {
        Ok(None)
    } else {
        let w = words(t);
        if w.len() <= 1 {
            Err(no_alias_message(n + 1, w[0]))
        } else {
            Ok(Some((w[0], w.skip(1))))
        }
    }
}

/// `m` with every alias of `aliases` mapped to `lang`.
pub open spec fn map_aliases(
    m: Map<Seq<char>, Seq<char>>,
    aliases: Seq<Seq<char>>,
    lang: Seq<char>,
) -> Map<Seq<char>, Seq<char>>
    decreases aliases.len(),
{
    if aliases.len() == 0 {
        m
    } else {
        map_aliases(m, aliases.drop_last(), lang).insert(aliases.last(), lang)
    }
}

/// The alias map after the first `k` lines `ls`, or the error of the first
/// line that fails.
pub open spec fn alias_map_upto(ls: Seq<Seq<char>>, k: int) -> Result<
    Map<Seq<char>, Seq<char>>,
    Seq<char>,
>
    decreases k,
{
    if k <= 0 {
        Ok(Map::empty())
    } else {
        match alias_map_upto(ls, k - 1) {
            Err(e) => Err(e),
            Ok(m) => match alias_line(ls[k - 1], (k - 1) as nat) {
                Err(e) => Err(e),
                Ok(None) => Ok(m),
                Ok(Some((lang, aliases))) => Ok(map_aliases(m, aliases, lang)),
            },
        }
    }
}

/// The alias map of an alias table: each alias to the language of the
/// last line that lists it.
pub open spec fn alias_map(s: Seq<char>) -> Result<Map<Seq<char>, Seq<char>>, Seq<char>> {
    alias_map_upto(table_lines(s), table_lines(s).len() as int)
}

proof fn lemma_alias_error_persists(ls: Seq<Seq<char>>, k: int, m: int)
    requires
        0 < k <= m,
        alias_map_upto(ls, k) is Err,
    ensures
        alias_map_upto(ls, m) == alias_map_upto(ls, k),
    decreases m - k,
{
    if k < m {
        lemma_alias_error_persists(ls, k, m - 1);
    }
}

/// A text whose word scan is inside a word has at least one word left.
proof fn lemma_words_nonempty(s: Seq<char>, start: int, i: int)
    requires
        0 <= start <= i,
        start < s.len(),
        !is_ws(s[start]),
        forall|j: int| start <= j < i ==> !is_ws(#[trigger] s[j]),
    ensures
        words_from(s, start, i).len() >= 1,
    decreases s.len() - i,
{
    if i < s.len() && !is_ws(s[i]) {
        lemma_words_nonempty(s, start, i + 1);
    }
}

/// Builds `"Error at line " n ", no alias to set for lang `" lang "`"`.
fn no_alias_message_exec(n: usize, lang: &Vec<char>) -> (r: String)
    ensures
        r@ == no_alias_message(n as nat, lang@),
{
    let mut r = String::from_str("Error at line ");
    r.append(decimal_string(n).as_str());
    r.append(", no alias to set for lang `");
    append_chars(&mut r, lang);
    r.append("`");
    r
}

/// Reads the alias table (see `alias_line`): each alias to its language.
pub fn parse_aliases(content: &str) -> (r: Result<StringHashMap<String>, String>)
    ensures
        match r {
            Ok(m) => alias_map(content@) == Ok::<Map<Seq<char>, Seq<char>>, Seq<char>>(
                value_views(m@),
            ),
            Err(e) => alias_map(content@) == Err::<Map<Seq<char>, Seq<char>>, Seq<char>>(e@),
        },
{
    let v = chars_of(content);
    let tl = read_table_lines(&v);
    let ghost ls = table_lines(v@);
    let mut map: StringHashMap<String> = StringHashMap::new();
    assert(value_views(map@) =~= Map::empty());
    let mut k: usize = 0;
    while k < tl.raw.len()
        invariant
            tl.holds(v@),
            v@ == content@,
            ls == table_lines(v@),
            k <= ls.len(),
            alias_map_upto(ls, k as int) == Ok::<Map<Seq<char>, Seq<char>>, Seq<char>>(
                value_views(map@),
            ),
        decreases ls.len() - k,
    {
        let t = &tl.trimmed[k];
        assert(t@ == trim(ls[k as int]));
        if is_entry_exec(t) {
            let wr = word_ranges(t);
            let ghost w = words(t@);
            proof {
                crate::text::lemma_trim_starts_solid(ls[k as int]);
                lemma_words_nonempty(t@, 0, 0);
            }
            assert(wr@[0].0 <= wr@[0].1 <= t@.len());
            assert(pieces(t@, wr@)[0] == t@.subrange(wr@[0].0 as int, wr@[0].1 as int));
            let lang = sub_vec(t, wr[0].0, wr[0].1);
            assert(lang@ == w[0]);
            if wr.len() <= 1 {
                let msg = no_alias_message_exec(k + 1, &lang);
                assert(alias_line(ls[k as int], k as nat) == Err::<
                    Option<(Seq<char>, Seq<Seq<char>>)>,
                    Seq<char>,
                >(msg@));
                assert(alias_map_upto(ls, k + 1) == Err::<Map<Seq<char>, Seq<char>>, Seq<char>>(
                    msg@,
                ));
                proof {
                    lemma_alias_error_persists(ls, k + 1, ls.len() as int);
                }
                return Err(msg);
            }
            let ghost aliases = w.skip(1);
            let ghost m0 = value_views(map@);
            let mut j: usize = 1;
            while j < wr.len()
                invariant
                    1 <= j <= wr@.len(),
                    ranges_within(t@, wr@),
                    pieces(t@, wr@) == w,
                    aliases == w.skip(1),
                    lang@ == w[0],
                    value_views(map@) == map_aliases(m0, aliases.take(j - 1), lang@),
                decreases wr@.len() - j,
            {
                let (lo, hi) = wr[j];
                assert(wr@[j as int].0 <= wr@[j as int].1 <= t@.len());
                assert(pieces(t@, wr@)[j as int] == t@.subrange(lo as int, hi as int));
                let alias = sub_vec(t, lo, hi);
                assert(alias@ == aliases[j - 1]);
                let ghost before = value_views(map@);
                map.insert(string_from(&alias), string_from(&lang));
                assert(aliases.take(j as int).drop_last() =~= aliases.take(j - 1));
                assert(value_views(map@) =~= before.insert(alias@, lang@));
                j = j + 1;
            }
            assert(aliases.take(j - 1) =~= aliases);
        }
        k = k + 1;
    }
    Ok(map)
}

} // verus!
