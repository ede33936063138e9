use codegod::utils::parser::{parse_args, parse_codeblock_lang, parse_codeblocks};
use codegod::compilers::rextester::client::{parse_lang_args, parse_langs};

#[test]
fn test_parse_args() {
    let (params, inputs, flags) = parse_args(&String::from("inp1 inp2 -g value1 -h value 2 -f 'this is a long argument' --goo --foo"))
    .unwrap();
    assert_eq!(params.len(), 3);
    assert_eq!(params.get("g").unwrap(), "value1");
    assert_eq!(params.get("h").unwrap(), "value");
    assert_eq!(params.get("f").unwrap(), "this is a long argument");
    assert_eq!(
        inputs,
        vec!["inp1", "inp2", "value1", "value", "2", "this is a long argument"]
    );
    assert_eq!(flags.len(), 2);
    assert!(flags.contains("goo"));
    assert!(flags.contains("foo"));
}

#[test]
fn test_parse_codeblocks() {
    let blocks = parse_codeblocks(&String::from("
        --foo some random stuff
        lol abcdedf ```py
        print(69)
        print('the code')
        ```
        some text that is of no use
        ```js
        console.log('some other code')
        ```
        again some extra text
        "))
    .unwrap();
    assert_eq!(
        blocks,
        vec![
            "py\n        print(69)\n        print('the code')\n        ",
            "js\n        console.log('some other code')\n        ",
        ]
    );

    let blocks = parse_codeblocks(&String::from("
        ```py
        print(69)
        print('the code')```
        some text that is of no use
        ```js
        console.log('some other code')```
        again some extra text
        "))
    .unwrap();
    assert_eq!(
        blocks,
        vec![
            "py\n        print(69)\n        print('the code')",
            "js\n        console.log('some other code')",
        ]
    );
}

#[test]
fn test_parse_codeblock_lang() {
    let (lang, code) = parse_codeblock_lang(&String::from("py\nprint(nice)")).unwrap();
    assert_eq!(lang, "py");
    assert_eq!(code, "print(nice)");
}

#[test]
fn test_rextester_parse_langs() {
    let map = parse_langs(&String::from("
        # this is a comment
        py | python | pyth 69
        js |javascript|    cringe 53
        rust | best|aaa 43
        # this is another commment.

        "))
    .unwrap();
    assert_eq!(map.len(), 9);
    for (name, id) in [
        ("py", 69), ("python", 69), ("pyth", 69),
        ("js", 53), ("javascript", 53), ("cringe", 53),
        ("rust", 43), ("best", 43), ("aaa", 43),
    ] {
        assert_eq!(*map.get(name).unwrap(), id);
    }
}

#[test]
fn test_rextester_parse_lang_args() {
    let map = parse_lang_args(&String::from("
        1 -foo bar /555
        2         -bar -5
        3 66 -- 5
        # this is a comment.
        "))
    .unwrap();
    assert_eq!(map.len(), 3);
    assert_eq!(map[&1], "-foo bar /555");
    assert_eq!(map[&2], "-bar -5");
    assert_eq!(map[&3], "66 -- 5");
}
