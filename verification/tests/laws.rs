use codegod::compilers::{rextester, tio};
use codegod::events::code_executor::{rextester_target, split_message};
use codegod::utils::parser::{parse_args, parse_codeblock_lang, parse_codeblocks};
use std::collections::HashMap;

#[test]
fn law_fenced_parts_give_back_their_blocks() {
    let parts = ["intro `x` ", "py\nprint(1)\n", " middle ", "js\nlet a = `t`;", " end"];
    let text = parts.join("```");
    assert_eq!(parse_codeblocks(&text).unwrap(), vec![parts[1], parts[3]]);
    let text = parts[..4].join("```");
    assert_eq!(parse_codeblocks(&text).err().unwrap(), "Unpaired ```s");
}

#[test]
fn law_code_text_keeps_blocks() {
    let msg = "-l py ```py\nprint(1)``` text ```c\nx```";
    let (args, rest) = split_message(msg);
    assert_eq!(format!("{args}{rest}"), msg);
    assert_eq!(parse_codeblocks(&rest).unwrap(), parse_codeblocks(msg).unwrap());
}

#[test]
fn law_codeblock_lang_rejoins() {
    let block = "rust\nfn main() {\n}\n";
    let (lang, code) = parse_codeblock_lang(block).unwrap();
    assert_eq!(format!("{lang}\n{code}"), block);
    assert!(!lang.contains('\n'));
}

#[test]
fn law_plain_words_are_inputs() {
    let (params, inputs, flags) = parse_args("a b 'c d' e").unwrap();
    assert_eq!(inputs, vec!["a", "b", "c d", "e"]);
    assert_eq!(params.len(), 0);
    assert_eq!(flags.len(), 0);
}

#[test]
fn law_language_number_text_reads_back() {
    let ids = rextester::client::parse_langs("py 18446744073709551615").unwrap();
    let (id_text, _) = rextester_target("py", &ids, &HashMap::new()).unwrap();
    assert_eq!(id_text.parse::<usize>().unwrap(), usize::MAX);
}

#[test]
fn law_table_entries_are_clean() {
    let set = tio::client::parse_langs("  a b \n#c\n\t d\n").unwrap();
    assert_eq!(set.len(), 2);
    assert!(set.contains("a b"));
    assert!(set.contains("d"));
}
