//! The tio.run compiler: its language table, the request it is sent and
//! the compression that request and its reply go through.

use vstd::prelude::*;
use vstd::hash_set::StringHashSet;
use vstd::utf8::encode_utf8;
use std::io::{Read, Write};
use flate2::read::GzDecoder;
use flate2::write::ZlibEncoder;
use flate2::Compression;
use crate::compilers::table::{read_entry_set, table_entries};
use crate::numeric::{decimal, decimal_string};

verus! {

/// Reads the language table: the set of its entries, one per line (blank
/// lines and `#` comments skipped, entries trimmed). Never fails.
pub fn parse_langs(content: &str) -> (r: Result<StringHashSet, String>)
    ensures
        r matches Ok(s) && s@ == table_entries(content@),
{
    Ok(read_entry_set(content))
}

/// A length-prefixed field of a tio request: `name`, a NUL, the UTF-8
/// byte length of `value`, a NUL, `value`, a NUL.
pub open spec fn tio_field(name: Seq<char>, value: Seq<char>) -> Seq<char> {
    name + "\x00"@ + decimal(encode_utf8(value).len()) + "\x00"@ + value + "\x00"@
}

/// The tio request for running `code` in `lang` with `input` on stdin:
/// the language variable, the code file, the input file when `input` is
/// not empty, and the run command `R`.
pub open spec fn request_string(lang: Seq<char>, code: Seq<char>, input: Seq<char>) -> Seq<char> {
    "Vlang\x001\x00"@ + lang + "\x00"@ + tio_field("F.code.tio"@, code) + if input.len() != 0 {
        tio_field("F.input.tio"@, input) + "R"@
    } else {
        "R"@
    }
}

/// Every length-prefixed field of a tio request gives the length of its
/// value in UTF-8 bytes: the request is the language variable, then the
/// code file with the byte length of the code, then (when there is input)
/// the input file with the byte length of the input, then `R`.
pub proof fn lemma_request_fields_count_bytes(lang: Seq<char>, code: Seq<char>, input: Seq<char>)
    ensures
        request_string(lang, code, input) == "Vlang\x001\x00"@ + lang + "\x00"@ + "F.code.tio"@
            + "\x00"@ + decimal(encode_utf8(code).len()) + "\x00"@ + code + "\x00"@ + (if input.len()
            == 0 {
            Seq::<char>::empty()
        } else {
            "F.input.tio"@ + "\x00"@ + decimal(encode_utf8(input).len()) + "\x00"@ + input
                + "\x00"@
        }) + "R"@,
{
    let head = "Vlang\x001\x00"@ + lang + "\x00"@;
    let cf = "F.code.tio"@ + "\x00"@ + decimal(encode_utf8(code).len()) + "\x00"@ + code + "\x00"@;
    assert(tio_field("F.code.tio"@, code) =~= cf);
    if input.len() == 0 {
        assert(request_string(lang, code, input) =~= head + cf + Seq::<char>::empty() + "R"@);
    } else {
        let inf = "F.input.tio"@ + "\x00"@ + decimal(encode_utf8(input).len()) + "\x00"@ + input
            + "\x00"@;
        assert(tio_field("F.input.tio"@, input) =~= inf);
        assert(request_string(lang, code, input) =~= head + cf + inf + "R"@);
    }
}

/// Builds the tio request (see `request_string`). Never fails.
pub fn make_request_string(lang: &str, code: &str, input: &str) -> (r: Result<String, String>)
    ensures
        r matches Ok(s) && s@ == request_string(lang@, code@, input@),
{
    let mut req = String::from_str("Vlang\x001\x00");
    req.append(lang);
    req.append("\x00");
    req.append("F.code.tio");
    req.append("\x00");
    req.append(decimal_string(code.as_bytes().len()).as_str());
    req.append("\x00");
    req.append(code);
    req.append("\x00");
    if !input.is_empty() {
        req.append("F.input.tio");
        req.append("\x00");
        req.append(decimal_string(input.as_bytes().len()).as_str());
        req.append("\x00");
        req.append(input);
        req.append("\x00");
        req.append("R");
    } else {
        req.append("R");
    }
    assert(req@ =~= request_string(lang@, code@, input@));
    Ok(req)
}

/// The zlib stream (2-byte header, deflate data at the default level,
/// 4-byte Adler-32 trailer) that `flate2`'s `ZlibEncoder` writes for `data`.
pub uninterp spec fn zlib_stream(data: Seq<u8>) -> Seq<u8>;

/// The text that `flate2`'s `GzDecoder` reads out of `data` (the first gzip
/// member, decompressed, as UTF-8), or `None` when `data` is not valid gzip
/// or its content is not valid UTF-8.
pub uninterp spec fn gunzip_text(data: Seq<u8>) -> Option<Seq<char>>;

/// Where zlib compression stopped.
pub enum ZlibFailure {
    Write,
    Finish,
}

/// Compresses `data` with `flate2::write::ZlibEncoder` at the default level
/// (`new`, `write_all`, `finish`).
/// Trusted: the result is the stream named `zlib_stream`, and it is always
/// there: the encoder writes into a `Vec`, which takes every write, and
/// miniz_oxide reports an error only for a stream used after it finished,
/// which this sequence of calls never does. The stream holds at least its
/// header and its trailer, so 6 bytes.
#[verifier::external_body]
fn zlib_encode(data: &[u8]) -> (r: Result<Vec<u8>, ZlibFailure>)
    ensures
        r is Ok,
        r matches Ok(v) ==> v@ == zlib_stream(data@),
        r matches Ok(v) ==> v@.len() >= 6,
{
    let mut e = ZlibEncoder::new(Vec::new(), Compression::default());
    match e.write_all(data) {
        Ok(_) => {},
        Err(_) => return Err(ZlibFailure::Write),
    }
    match e.finish() {
        Ok(v) => Ok(v),
        Err(_) => Err(ZlibFailure::Finish),
    }
}

/// Decompresses gzip data into text with `flate2::read::GzDecoder` and
/// `read_to_string`.
/// Trusted: the result is the one named `gunzip_text`. `GzDecoder::new`
/// reads the 10-byte gzip header at once and refuses it when it is cut
/// short, when its first two bytes are not the gzip magic `1f 8b`, or when
/// its method byte is not 8 (deflate); the read then fails.
#[verifier::external_body]
fn gunzip_to_string(data: &[u8]) -> (r: Option<String>)
    ensures
        match r {
            Some(s) => gunzip_text(data@) == Some(s@),
            None => gunzip_text(data@) is None,
        },
        !gzip_header_ok(data@) ==> r is None,
{
    let mut decoder = GzDecoder::new(data);
    let mut s = String::new();
    match decoder.read_to_string(&mut s) {
        Ok(_) => Some(s),
        Err(_) => None,
    }
}

/// Whether `data` starts with a whole gzip header of the deflate method:
/// ten bytes at least, the magic `1f 8b`, then method 8.
pub open spec fn gzip_header_ok(data: Seq<u8>) -> bool {
    &&& data.len() >= 10
    &&& data[0] == 0x1f
    &&& data[1] == 0x8b
    &&& data[2] == 8
}

/// Compresses the UTF-8 bytes of a request into a zlib stream. Never
/// fails.
pub fn zlib_compress(req_string: &str) -> (r: Result<Vec<u8>, String>)
    ensures
        r matches Ok(v) && v@ == zlib_stream(encode_utf8(req_string@)) && v@.len() >= 6,
{
    match zlib_encode(req_string.as_bytes()) {
        Ok(v) => Ok(v),
        Err(ZlibFailure::Write) => Err(String::from_str("failed to write to the encoder")),
        Err(ZlibFailure::Finish) => Err(String::from_str("failed to compress")),
    }
}

/// Decompresses a gzip reply into text; fails with `unable to decompress`
/// exactly when the reply is not gzip of UTF-8 text.
pub fn gzip_decompress(bytes: Vec<u8>) -> (r: Result<String, String>)
    ensures
        match r {
            Ok(s) => gunzip_text(bytes@) == Some(s@),
            Err(e) => gunzip_text(bytes@) is None && e@ == "unable to decompress"@,
        },
        !gzip_header_ok(bytes@) ==> r is Err,
{
    match gunzip_to_string(bytes.as_slice()) {
        Some(s) => Ok(s),
        None => Err(String::from_str("unable to decompress")),
    }
}

} // verus!
