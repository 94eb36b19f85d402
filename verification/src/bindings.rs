//! The boundary codec: how a request is laid out for the engine, and how the
//! engine's answer is read.
//!
//! The engine takes two null-terminated texts, a file name and the code, and
//! answers with one text. Whitespace before the answer's first character is
//! skipped; that character is the tag, `'0'` for formatted code and `'1'` for
//! an error message; what follows the tag is the payload, taken as it is.

use vstd::prelude::*;
use vstd::slice::slice_to_vec;
use vstd::std_specs::iter::IteratorSpec;
use vstd::utf8::{decode_utf8, encode_utf8, valid_utf8};

verus! {

/// The characters that Unicode marks as `White_Space`: what `char::is_whitespace`
/// holds to be whitespace, and what `str::trim_start` skips.
pub open spec fn is_whitespace(c: char) -> bool {
    let v = c as u32;
    ||| 0x09 <= v <= 0x0d
    ||| v == 0x20
    ||| v == 0x85
    ||| v == 0xa0
    ||| v == 0x1680
    ||| 0x2000 <= v <= 0x200a
    ||| v == 0x2028
    ||| v == 0x2029
    ||| v == 0x202f
    ||| v == 0x205f
    ||| v == 0x3000
}

/// How many whitespace characters stand at the start of `s`.
pub open spec fn leading_whitespace(s: Seq<char>) -> nat
    decreases s.len(),
{
    if s.len() > 0 && is_whitespace(s[0]) {
        1 + leading_whitespace(s.drop_first())
    } else {
        0
    }
}

/// `s` without the whitespace at its start.
pub open spec fn trim_start(s: Seq<char>) -> Seq<char> {
    s.skip(leading_whitespace(s) as int)
}

/// `i` is the place of the first character of `s` that is not whitespace, or
/// the length of `s` where there is none.
pub open spec fn is_trim_point(s: Seq<char>, i: int) -> bool {
    &&& 0 <= i <= s.len()
    &&& forall|j: int| 0 <= j < i ==> is_whitespace(#[trigger] s[j])
    &&& i < s.len() ==> !is_whitespace(s[i])
}

/// A text has one trim point, the number of its leading whitespace characters.
pub proof fn lemma_trim_point(s: Seq<char>, i: int)
    ensures
        is_trim_point(s, i) <==> leading_whitespace(s) == i,
    decreases s.len(),
{
    if s.len() > 0 && is_whitespace(s[0]) {
        let t = s.drop_first();
        lemma_trim_point(t, i - 1);
        if is_trim_point(s, i) {
            assert(i > 0);
            assert forall|j: int| 0 <= j < i - 1 implies is_whitespace(#[trigger] t[j]) by {
                assert(t[j] == s[j + 1]);
            }
            assert(i - 1 < t.len() ==> t[i - 1] == s[i]);
        }
        if leading_whitespace(s) == i {
            assert forall|j: int| 0 <= j < i implies is_whitespace(#[trigger] s[j]) by {
                if j > 0 {
                    assert(s[j] == t[j - 1]);
                }
            }
            assert(i < s.len() ==> s[i] == t[i - 1]);
        }
    }
}

/// The message for an answer that carries no known tag.
pub open spec fn unknown_error() -> Seq<char> {
    "Unknown error"@
}

/// What an answer of the engine means: `Ok` with the formatted code, or `Err`
/// with a message.
pub open spec fn decode_spec(response: Seq<char>) -> Result<Seq<char>, Seq<char>> {
    let rest = trim_start(response);
    if rest.len() > 0 && rest[0] == '0' {
        Ok(rest.skip(1))
    } else if rest.len() > 0 && rest[0] == '1' {
        Err(rest.skip(1))
    } else {
        Err(unknown_error())
    }
}

/// What the bytes of an answer mean. Bytes that are no text carry no tag.
pub open spec fn parse_spec(res: Seq<u8>) -> Result<Seq<char>, Seq<char>> {
    if valid_utf8(res) {
        decode_spec(decode_utf8(res))
    } else {
        Err(unknown_error())
    }
}

/// The texts of a decoded answer.
pub open spec fn texts(r: Result<String, String>) -> Result<Seq<char>, Seq<char>> {
    match r {
        Ok(s) => Ok(s@),
        Err(s) => Err(s@),
    }
}

/// Whether `c` is whitespace.
pub fn char_is_whitespace(c: char) -> (r: bool)
    ensures
        r == is_whitespace(c),
{
    let v: u32 = c as u32;
    (0x09 <= v && v <= 0x0d) || v == 0x20 || v == 0x85 || v == 0xa0 || v == 0x1680 || (0x2000 <= v
        && v <= 0x200a) || v == 0x2028 || v == 0x2029 || v == 0x202f || v == 0x205f || v == 0x3000
}

/// Counts the whitespace characters at the start of `s`.
pub fn count_leading_whitespace(s: &str) -> (i: usize)
    ensures
        i == leading_whitespace(s@),
{
    let n = s.unicode_len();
    let mut rest = s.chars();
    let mut i: usize = 0;
    loop
        invariant_except_break
            rest.remaining() == s@.skip(i as int),
        invariant
            n == s@.len(),
            i <= n,
            rest.obeys_prophetic_iter_laws(),
            forall|j: int| 0 <= j < i ==> is_whitespace(#[trigger] s@[j]),
        ensures
            is_trim_point(s@, i as int),
        decreases n - i,
    {
        match rest.next() {
            Some(c) => {
                if char_is_whitespace(c) {
                    i += 1;
                } else {
                    break ;
                }
            },
            None => {
                break ;
            },
        }
    }
    proof {
        lemma_trim_point(s@, i as int);
    }
    i
}

/// Reads an answer of the engine: skips the whitespace before the tag, and
/// hands out the payload as `Ok` under the tag `'0'`, as `Err` under the tag
/// `'1'`. An answer without one of these tags is an unknown error.
pub fn decode(response: &str) -> (r: Result<String, String>)
    ensures
        texts(r) == decode_spec(response@),
{
    let n = response.unicode_len();
    let i = count_leading_whitespace(response);
    proof {
        lemma_trim_point(response@, i as int);
    }
    if i < n {
        assert(response@.subrange(i + 1, n as int) =~= trim_start(response@).skip(1));
        let tag = response.get_char(i);
        if tag == '0' {
            return Ok(response.substring_char(i + 1, n).to_owned());
        }
        if tag == '1' {
            return Err(response.substring_char(i + 1, n).to_owned());
        }
    }
    Err("Unknown error".to_owned())
}

/// `std::str::from_utf8`: the text that `bytes` hold where they are valid
/// UTF-8, a text with these very bytes, and nothing where they are not.
#[verifier::external_body]
fn text_of(bytes: &[u8]) -> (r: Option<&str>)
    ensures
        r is Some <==> valid_utf8(bytes@),
        r matches Some(text) ==> encode_utf8(text@) == bytes@,
{
    match std::str::from_utf8(bytes) {
        Ok(text) => Some(text),
        Err(_) => None,
    }
}

/// Reads the bytes of an answer of the engine, as they stand before the
/// terminating null byte. Bytes that are not valid UTF-8 are an unknown error.
pub fn parse_result(res: &[u8]) -> (r: Result<String, String>)
    ensures
        texts(r) == parse_spec(res@),
{
    match text_of(res) {
        Some(text) => {
            proof {
                vstd::utf8::encode_utf8_decode_utf8(text@);
            }
            decode(text)
        },
        None => Err("Unknown error".to_owned()),
    }
}

/// Why a request cannot cross the boundary.
#[derive(Debug, Clone, Copy, PartialEq, Eq, Structural)]
pub enum EncodingError {
    /// The path is not valid text.
    PathNotText,
    /// The path holds a null byte.
    PathHasNul,
    /// The code holds a null byte.
    ContentHasNul,
}

impl EncodingError {
    /// The description of this failure.
    pub open spec fn message_spec(self) -> Seq<char> {
        match self {
            EncodingError::PathNotText => "Failed to convert path to string"@,
            EncodingError::PathHasNul => "Failed to convert file name to CString"@,
            EncodingError::ContentHasNul => "Failed to convert code to CString"@,
        }
    }

    /// The description of this failure.
    pub fn message(&self) -> (text: String)
        ensures
            text@ == self.message_spec(),
    {
        match self {
            EncodingError::PathNotText => "Failed to convert path to string".to_owned(),
            EncodingError::PathHasNul => "Failed to convert file name to CString".to_owned(),
            EncodingError::ContentHasNul => "Failed to convert code to CString".to_owned(),
        }
    }
}

/// `bytes` end in a null byte and hold no other.
pub open spec fn is_c_string(bytes: Seq<u8>) -> bool {
    &&& bytes.len() > 0
    &&& bytes.last() == 0
    &&& !bytes.drop_last().contains(0)
}

/// The two arguments of the foreign call, as values of specifications.
pub struct ForeignArgsView {
    pub file_name: Seq<u8>,
    pub code: Seq<u8>,
}

/// The two arguments of the foreign call, each with its terminating null byte.
#[derive(Debug, Clone, PartialEq, Eq)]
pub struct ForeignArgs {
    pub file_name: Vec<u8>,
    pub code: Vec<u8>,
}

impl View for ForeignArgs {
    type V = ForeignArgsView;

    open spec fn view(&self) -> ForeignArgsView {
        ForeignArgsView { file_name: self.file_name@, code: self.code@ }
    }
}

impl ForeignArgsView {
    /// Both arguments are null-terminated, with no null byte before the end.
    pub open spec fn wf(self) -> bool {
        is_c_string(self.file_name) && is_c_string(self.code)
    }
}

/// The foreign form of a path and a code, or why there is none. The path has
/// to be valid UTF-8, and neither may hold a null byte.
pub open spec fn encode_spec(path: Seq<u8>, content: Seq<char>) -> Result<
    ForeignArgsView,
    EncodingError,
> {
    if !valid_utf8(path) {
        Err(EncodingError::PathNotText)
    } else if path.contains(0) {
        Err(EncodingError::PathHasNul)
    } else if encode_utf8(content).contains(0) {
        Err(EncodingError::ContentHasNul)
    } else {
        Ok(ForeignArgsView { file_name: path.push(0), code: encode_utf8(content).push(0) })
    }
}

/// The views of an encoding.
pub open spec fn encoded(r: Result<ForeignArgs, EncodingError>) -> Result<
    ForeignArgsView,
    EncodingError,
> {
    match r {
        Ok(args) => Ok(args@),
        Err(e) => Err(e),
    }
}

/// The bytes that UTF-8 makes of a value: none is null, but the one byte of
/// the value zero.
proof fn lemma_bytes_of_scalar(v: u32)
    by (bit_vector)
    ensures
        v <= 0x7f ==> ((v & 0x7f) as u8 == 0 <==> v == 0),
        0xc0u8 | ((v >> 6) & 0x1f) as u8 != 0,
        0xe0u8 | ((v >> 12) & 0x0f) as u8 != 0,
        0xf0u8 | ((v >> 18) & 0x07) as u8 != 0,
        0x80u8 | (v & 0x3f) as u8 != 0,
        0x80u8 | ((v >> 6) & 0x3f) as u8 != 0,
        0x80u8 | ((v >> 12) & 0x3f) as u8 != 0,
{
}

/// A text has a null byte in its UTF-8 form if and only if it holds the null
/// character.
pub proof fn lemma_nul_byte_is_nul_char(text: Seq<char>)
    ensures
        encode_utf8(text).contains(0) <==> text.contains('\0'),
    decreases text.len(),
{
    if text.len() > 0 {
        let v = text[0] as u32;
        let first = vstd::utf8::encode_scalar(v);
        let rest = text.drop_first();
        lemma_nul_byte_is_nul_char(rest);
        assert(first.contains(0) <==> text[0] == '\0') by {
            lemma_bytes_of_scalar(v);
            vstd::utf8::char_is_scalar(text[0]);
            vstd::utf8::char_u32_cast(text[0], v);
            assert(text[0] == '\0' <==> v == 0);
            assert(forall|i: int| 0 <= i < first.len() ==> (first[i] == 0 <==> v == 0));
            if v == 0 {
                assert(first[0] == 0);
            }
        }
        let bytes = encode_utf8(text);
        assert(bytes == first + encode_utf8(rest));
        if bytes.contains(0) {
            let i = choose|i: int| 0 <= i < bytes.len() && bytes[i] == 0;
            if i < first.len() {
                assert(first[i] == 0);
                assert(text[0] == '\0');
            } else {
                assert(encode_utf8(rest)[i - first.len()] == 0);
                let j = choose|j: int| 0 <= j < rest.len() && rest[j] == '\0';
                assert(text[j + 1] == '\0');
            }
        }
        if text.contains('\0') {
            let j = choose|j: int| 0 <= j < text.len() && text[j] == '\0';
            if j == 0 {
                let i = choose|i: int| 0 <= i < first.len() && first[i] == 0;
                assert(bytes[i] == 0);
            } else {
                assert(rest[j - 1] == '\0');
                let tail = encode_utf8(rest);
                let i = choose|i: int| 0 <= i < tail.len() && tail[i] == 0;
                assert(bytes[first.len() + i] == 0);
            }
        }
    }
}

/// What `encode_spec` hands out is well formed.
pub proof fn lemma_encode_wf(path: Seq<u8>, content: Seq<char>)
    ensures
        encode_spec(path, content) matches Ok(args) ==> args.wf(),
{
    assert(path.push(0).drop_last() =~= path);
    assert(encode_utf8(content).push(0).drop_last() =~= encode_utf8(content));
}

/// Whether `bytes` hold a null byte.
pub fn has_nul(bytes: &[u8]) -> (r: bool)
    ensures
        r == bytes@.contains(0),
{
    let mut i: usize = 0;
    while i < bytes.len()
        invariant
            i <= bytes.len(),
            forall|j: int| 0 <= j < i ==> bytes@[j] != 0,
        decreases bytes.len() - i,
    {
        if bytes[i] == 0 {
            return true;
        }
        i += 1;
    }
    false
}

/// `bytes` with a null byte after them.
pub fn terminated(bytes: &[u8]) -> (r: Vec<u8>)
    ensures
        r@ == bytes@.push(0),
{
    let mut r = slice_to_vec(bytes);
    r.push(0);
    r
}

/// Lays a request out for the foreign call: the path and the code, each
/// followed by a null byte. A path that is not valid UTF-8, and a path or a
/// code that holds a null byte, is refused, and nothing is cut short.
pub fn encode(path: &[u8], content: &str) -> (r: Result<ForeignArgs, EncodingError>)
    ensures
        encoded(r) == encode_spec(path@, content@),
        r matches Ok(args) ==> args@.wf(),
{
    proof {
        lemma_encode_wf(path@, content@);
    }
    if text_of(path).is_none() {
        return Err(EncodingError::PathNotText);
    }
    if has_nul(path) {
        return Err(EncodingError::PathHasNul);
    }
    let code = content.as_bytes();
    if has_nul(code) {
        return Err(EncodingError::ContentHasNul);
    }
    Ok(ForeignArgs { file_name: terminated(path), code: terminated(code) })
}

} // verus!
