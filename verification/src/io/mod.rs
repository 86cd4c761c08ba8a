//! Reading and writing files' contents: encoding detection and decoding,
//! line-ending detection and normalisation, encoding for writing.

pub mod file_watcher;

use vstd::prelude::*;
use vstd::utf8::{decode_utf8, encode_utf8, valid_utf8};
use std::path::PathBuf;
use crate::buffer::line_ending::{count_endings, counts_from, normalized_from};
use crate::commands::file::path_display;
use crate::config::io_error_text;
use crate::syntax::languages::{extension_of, file_name_of, name_extension, path_file_name};
use crate::text::{concat, is_ascii_text, lower_of, str_to_chars, string_push, string_to_lower, u64_to_string, usize_decimal};

verus! {

/// The largest file that is read into memory: 100 MB.
pub const MAX_MEMORY_FILE_SIZE: u64 = 104857600;

/// Errors of reading and writing files.
#[derive(Debug)]
pub enum IoError {
    FileNotFound(PathBuf),
    PermissionDenied(PathBuf),
    FileTooLarge { size: u64, max: u64 },
    EncodingError(String),
    Io(std::io::Error),
    InvalidPath(String),
}

impl IoError {
    /// The message of the error. Messages about a path end with the path as
    /// the platform displays it, those about an I/O error with the system's
    /// text.
    pub fn to_display_string(&self) -> (s: String)
        ensures
            match *self {
                IoError::FileTooLarge { size, max } => s@ == "File too large: "@ + usize_decimal(size as nat)
                    + " bytes (max: "@ + usize_decimal(max as nat) + " bytes)"@,
                IoError::EncodingError(m) => s@ == "Encoding error: "@ + m@,
                IoError::InvalidPath(m) => s@ == "Invalid path: "@ + m@,
                IoError::FileNotFound(_) => s@.len() >= 16 && s@.subrange(0, 16) == "File not found: "@,
                IoError::PermissionDenied(_) => s@.len() >= 19 && s@.subrange(0, 19) == "Permission denied: "@,
                IoError::Io(_) => s@.len() >= 10 && s@.subrange(0, 10) == "IO error: "@,
            },
    {
        match self {
            IoError::FileTooLarge { size, max } => {
                let a = concat("File too large: ", u64_to_string(*size).as_str());
                let b = concat(a.as_str(), " bytes (max: ");
                let c = concat(b.as_str(), u64_to_string(*max).as_str());
                concat(c.as_str(), " bytes)")
            },
            IoError::EncodingError(m) => concat("Encoding error: ", m.as_str()),
            IoError::InvalidPath(m) => concat("Invalid path: ", m.as_str()),
            IoError::FileNotFound(p) => {
                let r = concat("File not found: ", path_display(p).as_str());
                proof {
                    reveal_strlit("File not found: ");
                    assert(r@.subrange(0, 16) =~= "File not found: "@);
                }
                r
            },
            IoError::PermissionDenied(p) => {
                let r = concat("Permission denied: ", path_display(p).as_str());
                proof {
                    reveal_strlit("Permission denied: ");
                    assert(r@.subrange(0, 19) =~= "Permission denied: "@);
                }
                r
            },
            IoError::Io(e) => {
                let r = concat("IO error: ", io_error_text(e).as_str());
                proof {
                    reveal_strlit("IO error: ");
                    assert(r@.subrange(0, 10) =~= "IO error: "@);
                }
                r
            },
        }
    }
}

/// The encodings that detection tells apart.
#[derive(Debug, Clone, Copy, PartialEq, Eq, Structural)]
pub enum DetectedEncoding {
    Utf8,
    /// UTF-8 with a byte order mark
    Utf8Bom,
    Utf16Le,
    Utf16Be,
    /// Windows-1252
    Latin1,
    /// Not valid UTF-8: read as UTF-8, with replacement characters
    Unknown,
}

/// The name of an encoding as `Debug` writes it.
pub open spec fn encoding_debug_name(e: DetectedEncoding) -> Seq<char> {
    match e {
        DetectedEncoding::Utf8 => "Utf8"@,
        DetectedEncoding::Utf8Bom => "Utf8Bom"@,
        DetectedEncoding::Utf16Le => "Utf16Le"@,
        DetectedEncoding::Utf16Be => "Utf16Be"@,
        DetectedEncoding::Latin1 => "Latin1"@,
        DetectedEncoding::Unknown => "Unknown"@,
    }
}

fn encoding_debug_str(e: DetectedEncoding) -> (s: &'static str)
    ensures
        s@ == encoding_debug_name(e),
{
    match e {
        DetectedEncoding::Utf8 => "Utf8",
        DetectedEncoding::Utf8Bom => "Utf8Bom",
        DetectedEncoding::Utf16Le => "Utf16Le",
        DetectedEncoding::Utf16Be => "Utf16Be",
        DetectedEncoding::Latin1 => "Latin1",
        DetectedEncoding::Unknown => "Unknown",
    }
}

impl DetectedEncoding {
    /// Whether the encoding is written with a byte order mark.
    pub fn has_bom(&self) -> (b: bool)
        ensures
            b == (*self == DetectedEncoding::Utf8Bom),
    {
        match self {
            DetectedEncoding::Utf8Bom => true,
            _ => false,
        }
    }
}

/// Line-ending styles.
#[derive(Debug, Clone, Copy, PartialEq, Eq, Structural)]
pub enum LineEnding {
    /// `\n`
    Lf,
    /// `\r\n`
    CrLf,
    /// `\r`
    Cr,
}

/// The characters of a line ending.
pub open spec fn line_ending_chars(e: LineEnding) -> Seq<char> {
    match e {
        LineEnding::Lf => seq!['\n'],
        LineEnding::CrLf => seq!['\r', '\n'],
        LineEnding::Cr => seq!['\r'],
    }
}

/// The most common ending of a text: CRLF where it is at least as common as
/// each other (also when there are none), else CR where it is more common
/// than LF, else LF.
pub open spec fn most_common_ending(t: Seq<char>) -> LineEnding {
    let c = counts_from(t, 0);
    if c.1 >= c.0 && c.1 >= c.2 {
        LineEnding::CrLf
    } else if c.2 > c.0 {
        LineEnding::Cr
    } else {
        LineEnding::Lf
    }
}

impl LineEnding {
    /// The characters of the ending.
    pub fn as_str(&self) -> (s: &'static str)
        ensures
            s@ == line_ending_chars(*self),
    {
        let s = match self {
            LineEnding::Lf => "\n",
            LineEnding::CrLf => "\r\n",
            LineEnding::Cr => "\r",
        };
        proof {
            reveal_strlit("\n");
            reveal_strlit("\r\n");
            reveal_strlit("\r");
        }
        s
    }

    /// The most common ending of a text (see [`most_common_ending`]).
    pub fn detect(text: &str) -> (e: Self)
        ensures
            e == most_common_ending(text@),
    {
        let t = str_to_chars(text);
        let (lf, crlf, cr) = count_endings(&t);
        if crlf >= lf && crlf >= cr {
            LineEnding::CrLf
        } else if cr > lf {
            LineEnding::Cr
        } else {
            LineEnding::Lf
        }
    }

    /// The text with every line ending (`\r\n`, `\r` or `\n`) replaced by
    /// the target's.
    pub fn normalize(text: &str, target: LineEnding) -> (s: String)
        ensures
            s@ == normalized_from(text@, 0, line_ending_chars(target)),
    {
        let t = str_to_chars(text);
        let tg = target.as_str();
        let mut result = String::new();
        let mut i: usize = 0;
        while i < t.len()
            invariant
                i <= t.len(),
                t@ == text@,
                tg@ == line_ending_chars(target),
                result@ + normalized_from(t@, i as int, tg@) == normalized_from(t@, 0, tg@),
            decreases t.len() - i,
        {
            let ghost old_res = result@;
            if t[i] == '\r' || t[i] == '\n' {
                let ghost j = i;
                if t[i] == '\r' && i + 1 < t.len() && t[i + 1] == '\n' {
                    i = i + 2;
                } else {
                    i = i + 1;
                }
                result = concat(result.as_str(), tg);
                proof {
                    assert(normalized_from(t@, j as int, tg@) == tg@ + normalized_from(t@, i as int, tg@));
                    assert(old_res + (tg@ + normalized_from(t@, i as int, tg@)) == result@
                        + normalized_from(t@, i as int, tg@));
                }
            } else {
                string_push(&mut result, t[i]);
                proof {
                    assert(old_res + (seq![t@[i as int]] + normalized_from(t@, i + 1, tg@)) == result@
                        + normalized_from(t@, i + 1, tg@));
                }
                i = i + 1;
            }
        }
        proof {
            assert(result@ + normalized_from(t@, i as int, tg@) == result@);
        }
        result
    }
}

/// A file's text with what was found out about it.
#[derive(Debug)]
pub struct FileContent {
    /// The text
    pub text: String,
    /// The encoding detected
    pub encoding: DetectedEncoding,
    /// The most common line ending
    pub line_ending: LineEnding,
    /// The file's size in bytes
    pub size: u64,
    /// Whether a byte order mark was there
    pub had_bom: bool,
}

/// The text that `String::from_utf8_lossy` makes of bytes.
pub uninterp spec fn utf8_lossy(bytes: Seq<u8>) -> Seq<char>;

/// The encodings of `encoding_rs` that files are read and written in.
#[derive(Debug, Clone, Copy, PartialEq, Eq, Structural)]
pub enum Codec {
    Utf8,
    Utf16Le,
    Utf16Be,
    Windows1252,
}

/// The codec that stands for a detected encoding: UTF-8 (with or without
/// a mark, and for unknown bytes), either UTF-16, or windows-1252 for
/// Latin-1.
pub open spec fn codec_of(e: DetectedEncoding) -> Codec {
    match e {
        DetectedEncoding::Utf16Le => Codec::Utf16Le,
        DetectedEncoding::Utf16Be => Codec::Utf16Be,
        DetectedEncoding::Latin1 => Codec::Windows1252,
        DetectedEncoding::Utf8 | DetectedEncoding::Utf8Bom | DetectedEncoding::Unknown => Codec::Utf8,
    }
}

/// The codec that stands for a detected encoding (see [`codec_of`]).
pub fn codec_for(e: DetectedEncoding) -> (c: Codec)
    ensures
        c == codec_of(e),
{
    match e {
        DetectedEncoding::Utf16Le => Codec::Utf16Le,
        DetectedEncoding::Utf16Be => Codec::Utf16Be,
        DetectedEncoding::Latin1 => Codec::Windows1252,
        DetectedEncoding::Utf8 | DetectedEncoding::Utf8Bom | DetectedEncoding::Unknown => Codec::Utf8,
    }
}

/// What `Encoding::decode` of `encoding_rs` gives for bytes in a codec:
/// the text, and whether malformed sequences were replaced.
pub uninterp spec fn decoded_as(codec: Codec, bytes: Seq<u8>) -> (Seq<char>, bool);

/// What `Encoding::encode` of `encoding_rs` gives for a text in a codec:
/// the bytes, and whether unmappable characters were replaced.
pub uninterp spec fn encoded_as(codec: Codec, text: Seq<char>) -> (Seq<u8>, bool);

/// `std::str::from_utf8`, the text copied: there is a text exactly when
/// the bytes are valid UTF-8, and it is what they encode.
#[verifier::external_body]
fn utf8_text(bytes: &[u8]) -> (r: Option<String>)
    ensures
        r is Some <==> valid_utf8(bytes@),
        r matches Some(s) ==> s@ == decode_utf8(bytes@),
{
    match std::str::from_utf8(bytes) {
        Ok(s) => Some(s.to_owned()),
        Err(_) => None,
    }
}

/// `String::from_utf8_lossy`: the result is the name [`utf8_lossy`] of
/// the bytes; on valid UTF-8 it is the text they encode.
#[verifier::external_body]
fn lossy_text(bytes: &[u8]) -> (r: String)
    ensures
        r@ == utf8_lossy(bytes@),
        valid_utf8(bytes@) ==> r@ == decode_utf8(bytes@),
{
    String::from_utf8_lossy(bytes).into_owned()
}

/// `Encoding::decode` of `encoding_rs` in the codec's encoding: the
/// result is the name [`decoded_as`] of the codec and the bytes.
#[verifier::external_body]
fn decode_bytes(codec: Codec, bytes: &[u8]) -> (r: (String, bool))
    ensures
        (r.0@, r.1) == decoded_as(codec, bytes@),
{
    let enc = match codec {
        Codec::Utf8 => encoding_rs::UTF_8,
        Codec::Utf16Le => encoding_rs::UTF_16LE,
        Codec::Utf16Be => encoding_rs::UTF_16BE,
        Codec::Windows1252 => encoding_rs::WINDOWS_1252,
    };
    let (text, _, had_errors) = enc.decode(bytes);
    (text.into_owned(), had_errors)
}

/// `Encoding::encode` of `encoding_rs` in the codec's encoding: the
/// result is the name [`encoded_as`]. The output encoding of UTF-8 and of
/// both UTF-16 forms is UTF-8, which gives the text's UTF-8 bytes without
/// replacements; windows-1252 gives an ASCII text's bytes unchanged too.
#[verifier::external_body]
fn encode_text(codec: Codec, text: &str) -> (r: (Vec<u8>, bool))
    ensures
        (r.0@, r.1) == encoded_as(codec, text@),
        codec != Codec::Windows1252 ==> r.0@ == encode_utf8(text@) && !r.1,
        is_ascii_text(text@) ==> r.0@ == encode_utf8(text@) && !r.1,
{
    let enc = match codec {
        Codec::Utf8 => encoding_rs::UTF_8,
        Codec::Utf16Le => encoding_rs::UTF_16LE,
        Codec::Utf16Be => encoding_rs::UTF_16BE,
        Codec::Windows1252 => encoding_rs::WINDOWS_1252,
    };
    let (bytes, _, had_errors) = enc.encode(text);
    (bytes.into_owned(), had_errors)
}

/// The bytes of `v` from index `k` on.
fn bytes_from(v: &[u8], k: usize) -> (r: Vec<u8>)
    requires
        k <= v@.len(),
    ensures
        r@ == v@.skip(k as int),
{
    let mut r: Vec<u8> = Vec::new();
    let mut i: usize = k;
    while i < v.len()
        invariant
            k <= i <= v@.len(),
            r@ == v@.subrange(k as int, i as int),
        decreases v@.len() - i,
    {
        r.push(v[i]);
        proof {
            assert(v@.subrange(k as int, i + 1) =~= v@.subrange(k as int, i as int).push(v@[i as int]));
        }
        i = i + 1;
    }
    proof {
        assert(v@.subrange(k as int, v@.len() as int) =~= v@.skip(k as int));
    }
    r
}

/// The encoding of a file's bytes, its text and whether a byte order mark
/// was there, or the message of the error: a UTF-8 mark gives the rest
/// read as UTF-8 (lossily); a UTF-16 mark gives the rest decoded as
/// UTF-16, an error where that finds malformed input; with no mark, valid
/// UTF-8 is read as such, and anything else lossily as unknown.
pub open spec fn decoding(b: Seq<u8>) -> Result<(DetectedEncoding, Seq<char>, bool), Seq<char>> {
    if b.len() >= 3 && b[0] == 0xEF && b[1] == 0xBB && b[2] == 0xBF {
        Ok((DetectedEncoding::Utf8Bom, utf8_lossy(b.skip(3)), true))
    } else if b.len() >= 2 && b[0] == 0xFF && b[1] == 0xFE {
        let (t, bad) = decoded_as(Codec::Utf16Le, b.skip(2));
        if bad {
            Err("Invalid UTF-16LE encoding"@)
        } else {
            Ok((DetectedEncoding::Utf16Le, t, true))
        }
    } else if b.len() >= 2 && b[0] == 0xFE && b[1] == 0xFF {
        let (t, bad) = decoded_as(Codec::Utf16Be, b.skip(2));
        if bad {
            Err("Invalid UTF-16BE encoding"@)
        } else {
            Ok((DetectedEncoding::Utf16Be, t, true))
        }
    } else if valid_utf8(b) {
        Ok((DetectedEncoding::Utf8, decode_utf8(b), false))
    } else {
        Ok((DetectedEncoding::Unknown, utf8_lossy(b), false))
    }
}

/// The bytes of a byte order mark written for an encoding.
pub open spec fn bom_bytes(e: DetectedEncoding) -> Seq<u8> {
    match e {
        DetectedEncoding::Utf8 | DetectedEncoding::Utf8Bom => seq![0xEFu8, 0xBBu8, 0xBFu8],
        DetectedEncoding::Utf16Le => seq![0xFFu8, 0xFEu8],
        DetectedEncoding::Utf16Be => seq![0xFEu8, 0xFFu8],
        _ => Seq::empty(),
    }
}

/// Reading files' contents.
pub struct FileReader;

impl FileReader {
    /// A size is refused when it is over [`MAX_MEMORY_FILE_SIZE`].
    pub fn check_size(size: u64) -> (r: Result<(), IoError>)
        ensures
            size <= MAX_MEMORY_FILE_SIZE ==> r is Ok,
            size > MAX_MEMORY_FILE_SIZE ==> (r matches Err(IoError::FileTooLarge { size: s, max: m })
                && s == size && m == MAX_MEMORY_FILE_SIZE),
    {
        if size > MAX_MEMORY_FILE_SIZE {
            Err(IoError::FileTooLarge { size, max: MAX_MEMORY_FILE_SIZE })
        } else {
            Ok(())
        }
    }

    /// What a UTF-16 decoding (after its byte order mark) gives: the text,
    /// with the mark noted, or, when the decoder met invalid input, the
    /// error for that encoding.
    pub fn utf16_outcome(encoding: DetectedEncoding, text: String, had_errors: bool) -> (r: Result<(DetectedEncoding, String, bool), IoError>)
        requires
            encoding == DetectedEncoding::Utf16Le || encoding == DetectedEncoding::Utf16Be,
        ensures
            had_errors ==> (r matches Err(IoError::EncodingError(x)) && x@ == (if encoding == DetectedEncoding::Utf16Le {
                "Invalid UTF-16LE encoding"@
            } else {
                "Invalid UTF-16BE encoding"@
            })),
            !had_errors ==> (r matches Ok((e, s, m)) && e == encoding && s@ == text@ && m),
    {
        if had_errors {
            if encoding == DetectedEncoding::Utf16Le {
                return Err(IoError::EncodingError("Invalid UTF-16LE encoding".to_owned()));
            }
            return Err(IoError::EncodingError("Invalid UTF-16BE encoding".to_owned()));
        }
        Ok((encoding, text, true))
    }

    /// The encoding of a file's bytes, its text, and whether a byte order
    /// mark was there (see [`decoding`]).
    pub fn detect_and_decode(bytes: &[u8]) -> (r: Result<(DetectedEncoding, String, bool), IoError>)
        ensures
            decoding(bytes@) matches Ok((e, t, m)) ==> (r matches Ok((e2, s, m2)) && e2 == e && s@ == t && m2 == m),
            decoding(bytes@) matches Err(msg) ==> (r matches Err(IoError::EncodingError(x)) && x@ == msg),
    {
        if bytes.len() >= 3 && bytes[0] == 0xEF && bytes[1] == 0xBB && bytes[2] == 0xBF {
            let rest = bytes_from(bytes, 3);
            let text = lossy_text(rest.as_slice());
            return Ok((DetectedEncoding::Utf8Bom, text, true));
        }
        if bytes.len() >= 2 {
            if bytes[0] == 0xFF && bytes[1] == 0xFE {
                let rest = bytes_from(bytes, 2);
                let (text, had_errors) = decode_bytes(Codec::Utf16Le, rest.as_slice());
                return Self::utf16_outcome(DetectedEncoding::Utf16Le, text, had_errors);
            }
            if bytes[0] == 0xFE && bytes[1] == 0xFF {
                let rest = bytes_from(bytes, 2);
                let (text, had_errors) = decode_bytes(Codec::Utf16Be, rest.as_slice());
                return Self::utf16_outcome(DetectedEncoding::Utf16Be, text, had_errors);
            }
        }
        match utf8_text(bytes) {
            Some(text) => Ok((DetectedEncoding::Utf8, text, false)),
            None => Ok((DetectedEncoding::Unknown, lossy_text(bytes), false)),
        }
    }

    /// A file's content from its bytes and size: the decoded text (see
    /// [`decoding`]) with its most common line ending.
    pub fn content_from_bytes(bytes: &[u8], size: u64) -> (r: Result<FileContent, IoError>)
        ensures
            decoding(bytes@) matches Ok((e, t, m)) ==> (r matches Ok(c) && c.encoding == e && c.text@ == t
                && c.had_bom == m && c.size == size && c.line_ending == most_common_ending(t)),
            decoding(bytes@) matches Err(msg) ==> (r matches Err(IoError::EncodingError(x)) && x@ == msg),
    {
        match Self::detect_and_decode(bytes) {
            Ok((encoding, text, had_bom)) => {
                let line_ending = LineEnding::detect(&text);
                Ok(FileContent { text, encoding, line_ending, size, had_bom })
            },
            Err(e) => Err(e),
        }
    }

    /// A file's content read in a given encoding (with the decoder's own
    /// byte order mark sniffing): an error where the decoder finds
    /// malformed input.
    pub fn decode_with_encoding(bytes: &[u8], encoding: DetectedEncoding, size: u64) -> (r: Result<FileContent, IoError>)
        ensures
            !decoded_as(codec_of(encoding), bytes@).1 ==> (r matches Ok(c) && c.text@ == decoded_as(codec_of(encoding), bytes@).0
                && c.encoding == encoding && c.size == size && !c.had_bom
                && c.line_ending == most_common_ending(c.text@)),
            decoded_as(codec_of(encoding), bytes@).1 ==> (r matches Err(IoError::EncodingError(x))
                && x@ == "Failed to decode file with "@ + encoding_debug_name(encoding)),
    {
        let (text, had_errors) = decode_bytes(codec_for(encoding), bytes);
        if had_errors {
            return Err(IoError::EncodingError(concat("Failed to decode file with ", encoding_debug_str(encoding))));
        }
        let line_ending = LineEnding::detect(&text);
        Ok(FileContent { text, encoding, line_ending, size, had_bom: false })
    }
}

/// Writing files' contents.
pub struct FileWriter;

impl FileWriter {
    /// The bytes that a text is written as: its line endings normalised,
    /// encoded, after a byte order mark where one is asked for; an error
    /// where the encoder had to replace characters.
    pub fn encode_for_file(text: &str, encoding: DetectedEncoding, line_ending: LineEnding, add_bom: bool) -> (r: Result<Vec<u8>, IoError>)
        ensures
            ({
                let n = normalized_from(text@, 0, line_ending_chars(line_ending));
                let (b, bad) = encoded_as(codec_of(encoding), n);
                &&& !bad ==> (r matches Ok(v) && v@ == (if add_bom { bom_bytes(encoding) } else { Seq::empty() }) + b)
                &&& bad ==> (r matches Err(IoError::EncodingError(x))
                    && x@ == "Failed to encode text with "@ + encoding_debug_name(encoding))
            }),
    {
        let normalized = LineEnding::normalize(text, line_ending);
        let (encoded, had_errors) = encode_text(codec_for(encoding), normalized.as_str());
        if had_errors {
            return Err(IoError::EncodingError(concat("Failed to encode text with ", encoding_debug_str(encoding))));
        }
        let mut out: Vec<u8> = Vec::new();
        if add_bom {
            match encoding {
                DetectedEncoding::Utf8 | DetectedEncoding::Utf8Bom => {
                    out.push(0xEF);
                    out.push(0xBB);
                    out.push(0xBF);
                },
                DetectedEncoding::Utf16Le => {
                    out.push(0xFF);
                    out.push(0xFE);
                },
                DetectedEncoding::Utf16Be => {
                    out.push(0xFE);
                    out.push(0xFF);
                },
                _ => {},
            }
        }
        proof {
            assert(out@ =~= (if add_bom { bom_bytes(encoding) } else { Seq::empty() }));
        }
        let ghost before = out@;
        let mut i: usize = 0;
        while i < encoded.len()
            invariant
                i <= encoded@.len(),
                out@ == before + encoded@.take(i as int),
            decreases encoded@.len() - i,
        {
            out.push(encoded[i]);
            proof {
                assert(encoded@.take(i + 1) =~= encoded@.take(i as int).push(encoded@[i as int]));
            }
            i = i + 1;
        }
        proof {
            assert(encoded@.take(i as int) =~= encoded@);
        }
        Ok(out)
    }
}

/// File utilities.
pub struct FileUtils;

impl FileUtils {
    /// The lower-cased extension of a `/`-separated path's file name, if
    /// it has one.
    pub fn get_extension(path: &str) -> (r: Option<String>)
        ensures
            match path_file_name(path@) {
                None => r is None,
                Some(n) => match name_extension(n) {
                    None => r is None,
                    Some(e) => r matches Some(x) && x@ == lower_of(e),
                },
            },
    {
        match file_name_of(path) {
            None => None,
            Some(n) => match extension_of(&n) {
                None => None,
                Some(e) => Some(string_to_lower(&e)),
            },
        }
    }

    /// Whether a sample of a file looks like text: it holds no zero byte.
    pub fn is_text_sample(bytes: &[u8]) -> (b: bool)
        ensures
            b == (forall|i: int| 0 <= i < bytes@.len() ==> bytes@[i] != 0),
    {
        let mut i: usize = 0;
        while i < bytes.len()
            invariant
                i <= bytes@.len(),
                forall|j: int| 0 <= j < i ==> bytes@[j] != 0,
            decreases bytes@.len() - i,
        {
            if bytes[i] == 0 {
                return false;
            }
            i = i + 1;
        }
        true
    }
}

} // verus!
