use codegod::compilers::rextester::client::{parse_lang_args, parse_langs, request_form};
use codegod::compilers::{tio, wandbox};
use codegod::utils::parser::{parse_args, parse_codeblock_lang, parse_codeblocks};
use std::io::{Read, Write};

#[test]
fn rextester_langs_rejects_line_without_space() {
    let err = parse_langs("  # c\n  py\n").err().unwrap();
    assert_eq!(err, "Line 1, `  py`, more than two terms");
}

#[test]
fn rextester_langs_rejects_bad_number() {
    let err = parse_langs("py x\n").err().unwrap();
    assert_eq!(err, "Line 1 `py x`, cannot parse the term `x` to an integer.");
    let err = parse_langs("py 99999999999999999999999999").err().unwrap();
    assert_eq!(
        err,
        "Line 1 `py 99999999999999999999999999`, cannot parse the term `99999999999999999999999999` to an integer."
    );
}

#[test]
fn rextester_langs_accepts_plus_sign_and_later_line_wins() {
    let map = parse_langs("py +5\r\npy|c 7\n").unwrap();
    assert_eq!(*map.get("py").unwrap(), 7);
    assert_eq!(*map.get("c").unwrap(), 7);
    assert_eq!(map.len(), 2);
}

#[test]
fn rextester_langs_empty_table() {
    assert_eq!(parse_langs("").unwrap().len(), 0);
    assert_eq!(parse_langs("\n\n# only comments\n").unwrap().len(), 0);
}

#[test]
fn rextester_args_errors() {
    assert_eq!(
        parse_lang_args("1\n").err().unwrap(),
        "Line 0, `1`, need exactly two terms here."
    );
    assert_eq!(
        parse_lang_args("\nx y\n").err().unwrap(),
        "Line 2 `x y`, cannot parse the term `x` to an integer."
    );
}

#[test]
fn rextester_args_later_line_wins() {
    let map = parse_lang_args("4 -a\n4   -b  \n").unwrap();
    assert_eq!(map.len(), 1);
    assert_eq!(map[&4], "-b");
}

#[test]
fn rextester_form_fields() {
    let form = request_form("print(1)", "24", "in", "-O2");
    assert_eq!(
        form,
        vec![
            ("LanguageChoice".to_string(), "24".to_string()),
            ("Program".to_string(), "print(1)".to_string()),
            ("Input".to_string(), "in".to_string()),
            ("CompilerArgs".to_string(), "-O2".to_string()),
        ]
    );
}

#[test]
fn tio_langs_set() {
    let set = tio::client::parse_langs("python3\n  # comment\n\n  rust  \n python3\n").unwrap();
    assert_eq!(set.len(), 2);
    assert!(set.contains("python3"));
    assert!(set.contains("rust"));
}

#[test]
fn tio_request_string_without_input() {
    let r = tio::client::make_request_string("python3", "print(1)", "").unwrap();
    assert_eq!(r, "Vlang\x001\x00python3\x00F.code.tio\x008\x00print(1)\x00R");
}

#[test]
fn tio_request_string_with_input_counts_bytes() {
    let r = tio::client::make_request_string("py", "é", "hi").unwrap();
    assert_eq!(
        r,
        "Vlang\x001\x00py\x00F.code.tio\x002\x00é\x00F.input.tio\x002\x00hi\x00R"
    );
}

#[test]
fn tio_zlib_compress_round_trips() {
    let text = "Vlang\x001\x00python3\x00R";
    let compressed = tio::client::zlib_compress(text).unwrap();
    assert_ne!(compressed, text.as_bytes().to_vec());
    let mut d = flate2::read::ZlibDecoder::new(&compressed[..]);
    let mut out = String::new();
    d.read_to_string(&mut out).unwrap();
    assert_eq!(out, text);
}

#[test]
fn tio_gzip_decompress_reads_text() {
    let mut e = flate2::write::GzEncoder::new(Vec::new(), flate2::Compression::default());
    e.write_all("hello there".as_bytes()).unwrap();
    let gz = e.finish().unwrap();
    assert_eq!(tio::client::gzip_decompress(gz).unwrap(), "hello there");
}

#[test]
fn tio_gzip_decompress_refuses_garbage() {
    assert_eq!(
        tio::client::gzip_decompress(b"not gzip at all".to_vec()).err().unwrap(),
        "unable to decompress"
    );
}

#[test]
fn tio_gzip_decompress_refuses_bad_headers() {
    // a real gzip stream with its magic, then its method byte, spoiled
    let mut e = flate2::write::GzEncoder::new(Vec::new(), flate2::Compression::default());
    e.write_all("hello there".as_bytes()).unwrap();
    let gz = e.finish().unwrap();
    let mut wrong_magic = gz.clone();
    wrong_magic[1] = 0x8c;
    assert_eq!(
        tio::client::gzip_decompress(wrong_magic).err().unwrap(),
        "unable to decompress"
    );
    let mut wrong_method = gz.clone();
    wrong_method[2] = 7;
    assert!(tio::client::gzip_decompress(wrong_method).is_err());
    // cut inside the header
    assert!(tio::client::gzip_decompress(gz[..9].to_vec()).is_err());
    assert!(tio::client::gzip_decompress(Vec::new()).is_err());
}

#[test]
fn tio_zlib_compress_succeeds_on_empty_and_long_requests() {
    let empty = tio::client::zlib_compress("").unwrap();
    assert!(empty.len() >= 6);
    assert_eq!(empty[0], 0x78);
    let long = "print(1)\n".repeat(2000);
    let compressed = tio::client::zlib_compress(&long).unwrap();
    assert!(compressed.len() < long.len());
    let mut d = flate2::read::ZlibDecoder::new(&compressed[..]);
    let mut out = String::new();
    d.read_to_string(&mut out).unwrap();
    assert_eq!(out, long);
}

#[test]
fn wandbox_langs_set() {
    let set = wandbox::client::parse_langs("gcc-head\n#x\nclang-head").unwrap();
    assert_eq!(set.len(), 2);
    assert!(set.contains("gcc-head"));
    assert!(set.contains("clang-head"));
}

#[test]
fn wandbox_aliases() {
    let map = wandbox::client::parse_aliases("gcc-head  c++ cpp\n# x\n clang-head\tclang c++\n").unwrap();
    assert_eq!(map.len(), 3);
    assert_eq!(map.get("cpp").unwrap(), "gcc-head");
    assert_eq!(map.get("c++").unwrap(), "clang-head");
    assert_eq!(map.get("clang").unwrap(), "clang-head");
}

#[test]
fn wandbox_alias_line_without_alias() {
    assert_eq!(
        wandbox::client::parse_aliases("a b\n  lonely  \n").err().unwrap(),
        "Error at line 2, no alias to set for lang `lonely`"
    );
}

#[test]
fn parse_args_missing_value() {
    assert_eq!(parse_args("a -x").err().unwrap(), "Got no value for argument 'x'");
}

#[test]
fn parse_args_unclosed_quote() {
    assert_eq!(parse_args("a 'b c").err().unwrap(), "Missing closing quotation");
}

#[test]
fn parse_args_parameter_value_may_be_a_dash_word() {
    let (params, inputs, flags) = parse_args("-l -i x").unwrap();
    assert_eq!(params.get("l").unwrap(), "-i");
    assert_eq!(params.get("i").unwrap(), "x");
    assert_eq!(inputs, vec!["x"]);
    assert_eq!(flags.len(), 0);
}

#[test]
fn codeblocks_unpaired_and_none() {
    assert_eq!(parse_codeblocks("a ```py\nx").err().unwrap(), "Unpaired ```s");
    assert_eq!(parse_codeblocks("no code here").unwrap(), Vec::<String>::new());
}

#[test]
fn codeblock_lang_missing_newline() {
    assert_eq!(
        parse_codeblock_lang("py").err().unwrap(),
        "The correct codeblock syntax is \\`\\`\\`lang\ncode\n\\`\\`\\`"
    );
}
