//! The rextester.com compiler: its language table, its table of compiler
//! arguments, the form it is sent and the reply it gives.

use vstd::prelude::*;
use vstd::hash_map::StringHashMap;
use std::collections::HashMap;
use crate::compilers::table::{append_chars, is_entry, is_entry_exec, read_table_lines, table_lines};
use crate::numeric::{decimal, decimal_string, parse_usize, parse_usize_exec};
use crate::text::{
    chars_of, find, find_exec, lemma_find_from_hit, lemma_rfind_hit, occurs_at, pieces,
    ranges_within, rfind,
    rfind_exec, split, split_ranges, string_from, sub_vec, trim, trim_vec,
};

verus! {

broadcast use vstd::std_specs::hash::group_hash_axioms;

/// The reply of the rextester API.
#[allow(non_snake_case)]
pub struct ApiResponse {
    pub Result: Option<String>,
    pub Stats: Option<String>,
    pub Warnings: Option<String>,
    pub Errors: Option<String>,
}

/// The error for a language line without a space.
pub open spec fn terms_message(n: nat, line: Seq<char>) -> Seq<char> {
    "Line "@ + decimal(n) + ", `"@ + line + "`, more than two terms"@
}

/// The error for a line whose number term is not a number.
pub open spec fn integer_message(n: nat, line: Seq<char>, term: Seq<char>) -> Seq<char> {
    "Line "@ + decimal(n) + " `"@ + line + "`, cannot parse the term `"@ + term
        + "` to an integer."@
}

/// What line `n` (counted from 0) of the language table says: nothing for
/// a blank or comment line; otherwise the line is `names id`, split at its
/// last space, where `names` is a `|`-separated list of language names
/// (each trimmed) and `id` the rextester language number.
pub open spec fn lang_line(line: Seq<char>, n: nat) -> Result<
    Option<(Seq<Seq<char>>, usize)>,
    Seq<char>,
> {
    let t = trim(line);
    if !is_entry(t) {
        Ok(None)
    } else {
        let p = rfind(t, seq![' ']);
        if p < 0 {
            Err(terms_message(n, line))
        } else {
            let id_text = t.subrange(p + 1, t.len() as int);
            match parse_usize(id_text) {
                None => Err(integer_message(n + 1, line, id_text)),
                Some(id) => Ok(
                    Some(
                        (
                            split(t.subrange(0, p), seq!['|']).map_values(
                                |x: Seq<char>| trim(x),
                            ),
                            id,
                        ),
                    ),
                ),
            }
        }
    }
}

/// `m` with every name of `names` mapped to `id`.
pub open spec fn map_names(m: Map<Seq<char>, usize>, names: Seq<Seq<char>>, id: usize) -> Map<
    Seq<char>,
    usize,
>
    decreases names.len(),
{
    if names.len() == 0 {
        m
    } else {
        map_names(m, names.drop_last(), id).insert(names.last(), id)
    }
}

/// The language map after the first `k` lines `ls`, or the error of the
/// first line that fails.
pub open spec fn lang_map_upto(ls: Seq<Seq<char>>, k: int) -> Result<
    Map<Seq<char>, usize>,
    Seq<char>,
>
    decreases k,
{
    if k <= 0 {
        Ok(Map::empty())
    } else {
        match lang_map_upto(ls, k - 1) {
            Err(e) => Err(e),
            Ok(m) => match lang_line(ls[k - 1], (k - 1) as nat) {
                Err(e) => Err(e),
                Ok(None) => Ok(m),
                Ok(Some((names, id))) => Ok(map_names(m, names, id)),
            },
        }
    }
}

/// The language map of a language table: each name to the language number
/// of the line it stands on (a later line wins).
pub open spec fn lang_map(s: Seq<char>) -> Result<Map<Seq<char>, usize>, Seq<char>> {
    lang_map_upto(table_lines(s), table_lines(s).len() as int)
}

proof fn lemma_lang_error_persists(ls: Seq<Seq<char>>, k: int, m: int)
    requires
        0 < k <= m,
        lang_map_upto(ls, k) is Err,
    ensures
        lang_map_upto(ls, m) == lang_map_upto(ls, k),
    decreases m - k,
{
    if k < m {
        lemma_lang_error_persists(ls, k, m - 1);
    }
}

/// Builds `"Line " n ", `" line "`, more than two terms"`.
fn terms_message_exec(n: usize, line: &Vec<char>) -> (r: String)
    ensures
        r@ == terms_message(n as nat, line@),
{
    let mut r = String::from_str("Line ");
    r.append(decimal_string(n).as_str());
    r.append(", `");
    append_chars(&mut r, line);
    r.append("`, more than two terms");
    r
}

/// Builds `"Line " n " `" line "`, cannot parse the term `" term "` to an integer."`.
fn integer_message_exec(n: usize, line: &Vec<char>, term: &Vec<char>) -> (r: String)
    ensures
        r@ == integer_message(n as nat, line@, term@),
{
    let mut r = String::from_str("Line ");
    r.append(decimal_string(n).as_str());
    r.append(" `");
    append_chars(&mut r, line);
    r.append("`, cannot parse the term `");
    append_chars(&mut r, term);
    r.append("` to an integer.");
    r
}

/// Reads the language table (see `lang_line`): each language name to its
/// rextester language number.
pub fn parse_langs(content: &str) -> (r: Result<StringHashMap<usize>, String>)
    ensures
        match r {
            Ok(m) => lang_map(content@) == Ok::<Map<Seq<char>, usize>, Seq<char>>(m@),
            Err(e) => lang_map(content@) == Err::<Map<Seq<char>, usize>, Seq<char>>(e@),
        },
{
    let v = chars_of(content);
    let tl = read_table_lines(&v);
    let ghost ls = table_lines(v@);
    let space: Vec<char> = vec![' '];
    let bar: Vec<char> = vec!['|'];
    assert(space@ =~= seq![' ']);
    assert(bar@ =~= seq!['|']);
    let mut map: StringHashMap<usize> = StringHashMap::new();
    let mut k: usize = 0;
    while k < tl.raw.len()
        invariant
            tl.holds(v@),
            v@ == content@,
            ls == table_lines(v@),
            k <= ls.len(),
            space@ == seq![' '],
            bar@ == seq!['|'],
            lang_map_upto(ls, k as int) == Ok::<Map<Seq<char>, usize>, Seq<char>>(map@),
        decreases ls.len() - k,
    {
        let line = &tl.raw[k];
        let t = &tl.trimmed[k];
        assert(line@ == ls[k as int]);
        assert(t@ == trim(ls[k as int]));
        if is_entry_exec(t) {
            match rfind_exec(t, &space) {
                None => {
                    let msg = terms_message_exec(k, line);
                    assert(lang_line(ls[k as int], k as nat) == Err::<
                        Option<(Seq<Seq<char>>, usize)>,
                        Seq<char>,
                    >(msg@));
                    assert(lang_map_upto(ls, k + 1) == Err::<Map<Seq<char>, usize>, Seq<char>>(
                        msg@,
                    ));
                    proof {
                        lemma_lang_error_persists(ls, k + 1, ls.len() as int);
                    }
                    return Err(msg);
                },
                Some(p) => {
                    assert(occurs_at(t@, space@, p as int)) by {
                        lemma_rfind_hit(t@, space@);
                    }
                    let id_text = sub_vec(t, p + 1, t.len());
                    match parse_usize_exec(&id_text) {
                        None => {
                            let msg = integer_message_exec(k + 1, line, &id_text);
                            assert(lang_line(ls[k as int], k as nat) == Err::<
                                Option<(Seq<Seq<char>>, usize)>,
                                Seq<char>,
                            >(msg@));
                            assert(lang_map_upto(ls, k + 1) == Err::<
                                Map<Seq<char>, usize>,
                                Seq<char>,
                            >(msg@));
                            proof {
                                lemma_lang_error_persists(ls, k + 1, ls.len() as int);
                            }
                            return Err(msg);
                        },
                        Some(id) => {
                            let head = sub_vec(t, 0, p);
                            let pr = split_ranges(&head, &bar);
                            let ghost names = split(head@, seq!['|']).map_values(
                                |x: Seq<char>| trim(x),
                            );
                            let ghost m0 = map@;
                            let mut j: usize = 0;
                            while j < pr.len()
                                invariant
                                    j <= pr@.len(),
                                    ranges_within(head@, pr@),
                                    pieces(head@, pr@) == split(head@, seq!['|']),
                                    names == split(head@, seq!['|']).map_values(
                                        |x: Seq<char>| trim(x),
                                    ),
                                    map@ == map_names(m0, names.take(j as int), id),
                                decreases pr@.len() - j,
                            {
                                let (lo, hi) = pr[j];
                                assert(pr@[j as int].0 <= pr@[j as int].1 <= head@.len());
                                assert(pieces(head@, pr@)[j as int] == head@.subrange(
                                    lo as int,
                                    hi as int,
                                ));
                                let piece = sub_vec(&head, lo, hi);
                                let name = trim_vec(&piece);
                                let ghost before = map@;
                                map.insert(string_from(&name), id);
                                assert(names[j as int] == name@);
                                assert(names.take(j + 1) =~= names.take(j as int).push(name@));
                                assert(names.take(j + 1).drop_last() =~= names.take(j as int));
                                assert(map@ =~= map_names(m0, names.take(j + 1), id));
                                j = j + 1;
                            }
                            assert(names.take(j as int) =~= names);
                        },
                    }
                },
            }
        }
        k = k + 1;
    }
    Ok(map)
}

/// The error for an argument line without a space.
pub open spec fn arg_terms_message(n: nat, line: Seq<char>) -> Seq<char> {
    "Line "@ + decimal(n) + ", `"@ + line + "`, need exactly two terms here."@
}

/// What line `n` (counted from 0) of the argument table says: nothing for
/// a blank or comment line; otherwise the line is `id args`, split at its
/// first space, where `id` is a rextester language number and `args` (once
/// trimmed) the compiler arguments for it.
pub open spec fn arg_line(line: Seq<char>, n: nat) -> Result<
    Option<(usize, Seq<char>)>,
    Seq<char>,
> {
    let t = trim(line);
    if !is_entry(t) {
        Ok(None)
    } else {
        let p = find(t, seq![' ']);
        if p < 0 {
            Err(arg_terms_message(n, line))
        } else {
            let first = t.subrange(0, p);
            match parse_usize(first) {
                None => Err(integer_message(n + 1, line, first)),
                Some(id) => Ok(Some((id, trim(t.subrange(p + 1, t.len() as int))))),
            }
        }
    }
}

/// The argument map after the first `k` lines `ls`, or the error of the
/// first line that fails.
pub open spec fn arg_map_upto(ls: Seq<Seq<char>>, k: int) -> Result<
    Map<usize, Seq<char>>,
    Seq<char>,
>
    decreases k,
{
    if k <= 0 {
        Ok(Map::empty())
    } else {
        match arg_map_upto(ls, k - 1) {
            Err(e) => Err(e),
            Ok(m) => match arg_line(ls[k - 1], (k - 1) as nat) {
                Err(e) => Err(e),
                Ok(None) => Ok(m),
                Ok(Some((id, args))) => Ok(m.insert(id, args)),
            },
        }
    }
}

/// The argument map of an argument table: each language number to the
/// arguments of the last line that names it.
pub open spec fn arg_map(s: Seq<char>) -> Result<Map<usize, Seq<char>>, Seq<char>> {
    arg_map_upto(table_lines(s), table_lines(s).len() as int)
}

/// The views of the values of a map to strings.
pub open spec fn arg_views(m: Map<usize, String>) -> Map<usize, Seq<char>> {
    m.map_values(|w: String| w@)
}

proof fn lemma_arg_error_persists(ls: Seq<Seq<char>>, k: int, m: int)
    requires
        0 < k <= m,
        arg_map_upto(ls, k) is Err,
    ensures
        arg_map_upto(ls, m) == arg_map_upto(ls, k),
    decreases m - k,
{
    if k < m {
        lemma_arg_error_persists(ls, k, m - 1);
    }
}

/// Builds `"Line " n ", `" line "`, need exactly two terms here."`.
fn arg_terms_message_exec(n: usize, line: &Vec<char>) -> (r: String)
    ensures
        r@ == arg_terms_message(n as nat, line@),
{
    let mut r = String::from_str("Line ");
    r.append(decimal_string(n).as_str());
    r.append(", `");
    append_chars(&mut r, line);
    r.append("`, need exactly two terms here.");
    r
}

/// Reads the argument table (see `arg_line`): each rextester language
/// number to its compiler arguments.
pub fn parse_lang_args(content: &str) -> (r: Result<HashMap<usize, String>, String>)
    ensures
        match r {
            Ok(m) => arg_map(content@) == Ok::<Map<usize, Seq<char>>, Seq<char>>(arg_views(m@)),
            Err(e) => arg_map(content@) == Err::<Map<usize, Seq<char>>, Seq<char>>(e@),
        },
{
    let v = chars_of(content);
    let tl = read_table_lines(&v);
    let ghost ls = table_lines(v@);
    let space: Vec<char> = vec![' '];
    assert(space@ =~= seq![' ']);
    let mut map: HashMap<usize, String> = HashMap::new();
    assert(arg_views(map@) =~= Map::empty());
    let mut k: usize = 0;
    while k < tl.raw.len()
        invariant
            tl.holds(v@),
            v@ == content@,
            ls == table_lines(v@),
            k <= ls.len(),
            space@ == seq![' '],
            arg_map_upto(ls, k as int) == Ok::<Map<usize, Seq<char>>, Seq<char>>(
                arg_views(map@),
            ),
        decreases ls.len() - k,
    {
        let line = &tl.raw[k];
        let t = &tl.trimmed[k];
        assert(line@ == ls[k as int]);
        assert(t@ == trim(ls[k as int]));
        if is_entry_exec(t) {
            match find_exec(t, &space, 0) {
                None => {
                    let msg = arg_terms_message_exec(k, line);
                    assert(arg_line(ls[k as int], k as nat) == Err::<
                        Option<(usize, Seq<char>)>,
                        Seq<char>,
                    >(msg@));
                    assert(arg_map_upto(ls, k + 1) == Err::<Map<usize, Seq<char>>, Seq<char>>(
                        msg@,
                    ));
                    proof {
                        lemma_arg_error_persists(ls, k + 1, ls.len() as int);
                    }
                    return Err(msg);
                },
                Some(p) => {
                    assert(occurs_at(t@, space@, p as int)) by {
                        lemma_find_from_hit(t@, space@, 0);
                    }
                    let first = sub_vec(t, 0, p);
                    match parse_usize_exec(&first) {
                        None => {
                            let msg = integer_message_exec(k + 1, line, &first);
                            assert(arg_line(ls[k as int], k as nat) == Err::<
                                Option<(usize, Seq<char>)>,
                                Seq<char>,
                            >(msg@));
                            assert(arg_map_upto(ls, k + 1) == Err::<
                                Map<usize, Seq<char>>,
                                Seq<char>,
                            >(msg@));
                            proof {
                                lemma_arg_error_persists(ls, k + 1, ls.len() as int);
                            }
                            return Err(msg);
                        },
                        Some(id) => {
                            let rest = sub_vec(t, p + 1, t.len());
                            let args = trim_vec(&rest);
                            let ghost before = map@;
                            map.insert(id, string_from(&args));
                            assert(arg_views(map@) =~= arg_views(before).insert(id, args@));
                        },
                    }
                },
            }
        }
        k = k + 1;
    }
    Ok(map)
}

/// The form fields of a rextester run request, in order: the language
/// number, the program, the standard input and the compiler arguments.
pub open spec fn request_form_of(
    code: Seq<char>,
    id: Seq<char>,
    input: Seq<char>,
    args: Seq<char>,
) -> Seq<(Seq<char>, Seq<char>)> {
    seq![
        ("LanguageChoice"@, id),
        ("Program"@, code),
        ("Input"@, input),
        ("CompilerArgs"@, args),
    ]
}

/// Builds the form fields of a rextester run request (see
/// `request_form_of`).
pub fn request_form(code: &str, id: &str, input: &str, args: &str) -> (r: Vec<(String, String)>)
    ensures
        r@.map_values(|f: (String, String)| (f.0@, f.1@)) == request_form_of(
            code@,
            id@,
            input@,
            args@,
        ),
{
    let mut r: Vec<(String, String)> = Vec::new();
    r.push((String::from_str("LanguageChoice"), String::from_str(id)));
    r.push((String::from_str("Program"), String::from_str(code)));
    r.push((String::from_str("Input"), String::from_str(input)));
    r.push((String::from_str("CompilerArgs"), String::from_str(args)));
    assert(r@.map_values(|f: (String, String)| (f.0@, f.1@)) =~= request_form_of(
        code@,
        id@,
        input@,
        args@,
    ));
    r
}

} // verus!
