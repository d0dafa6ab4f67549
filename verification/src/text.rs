//! File names as text: their Unicode normal form, and what a name has to be to
//! stand for one step of a path.
use unicode_normalization::{is_nfc_quick, IsNormalized, UnicodeNormalization};
use vstd::prelude::*;
use vstd::utf8::{decode_utf8, encode_scalar, encode_utf8, valid_utf8};

verus! {

/// A text that names one entry of a directory: it is not empty, holds no
/// separator, and is neither `.` nor `..`.
pub open spec fn is_plain_name(name: Seq<char>) -> bool {
    &&& name.len() > 0
    &&& !name.contains('/')
    &&& name != seq!['.']
    &&& name != seq!['.', '.']
}

/// The same for a name given as bytes.
pub open spec fn is_plain_bytes(name: Seq<u8>) -> bool {
    &&& name.len() > 0
    &&& !name.contains(0x2f)
    &&& name != seq![0x2eu8]
    &&& name != seq![0x2eu8, 0x2eu8]
}

/// The text in Unicode Normalization Form C, as the `unicode-normalization`
/// crate computes it.
pub uninterp spec fn nfc_form(text: Seq<char>) -> Seq<char>;

/// What the crate's quick check answers: `Some(true)` for "is in form C",
/// `Some(false)` for "is not", `None` for "may be".
pub uninterp spec fn nfc_quick(text: Seq<char>) -> Option<bool>;

/// The text that std reads out of bytes that need not be UTF-8.
pub uninterp spec fn lossy_text(bytes: Seq<u8>) -> Seq<char>;

/// A text in form C: normalizing leaves it as it is.
pub open spec fn is_nfc(text: Seq<char>) -> bool {
    nfc_form(text) == text
}

/// Calls `UnicodeNormalization::nfc` of the `unicode-normalization` crate and
/// collects what it yields.
///
/// Claimed, and not proved: the result is a function of the text; it is in form C
/// itself, so that normalizing it again changes nothing; and a text that names
/// one entry of a directory is turned into such a text. The last holds because
/// neither `.` nor `/` occurs in any canonical decomposition or composition of
/// the crate's tables, and no character is decomposed into nothing.
#[verifier::external_body]
pub(crate) fn to_nfc(text: &str) -> (nfc: String)
    ensures
        nfc@ == nfc_form(text@),
        is_nfc(nfc@),
        is_plain_name(text@) ==> is_plain_name(nfc@),
{
    text.nfc().collect::<String>()
}

/// Calls `is_nfc_quick` of the `unicode-normalization` crate.
///
/// Claimed, and not proved: the answer is a function of the text; after "yes" the
/// text is in form C, after "no" it is not. Of "maybe" nothing is claimed.
#[verifier::external_body]
pub(crate) fn quick_check(text: &str) -> (answer: Option<bool>)
    ensures
        answer == nfc_quick(text@),
        answer == Some(true) ==> is_nfc(text@),
        answer == Some(false) ==> !is_nfc(text@),
{
    match is_nfc_quick(text.chars()) {
        IsNormalized::Yes => Some(true),
        IsNormalized::No => Some(false),
        IsNormalized::Maybe => None,
    }
}

/// Calls `String::from_utf8_lossy` of std. Of the name of a file on Unix, whose bytes
/// std hands out as they are, this is the name that `OsStr::to_string_lossy` gives.
///
/// Claimed, and not proved: the result is a function of the bytes; bytes that are
/// UTF-8 give the text that they encode; and the name of a directory entry, UTF-8
/// or not, gives a text that names a directory entry, since all that is ever put
/// in the place of a malformed part is U+FFFD.
#[verifier::external_body]
pub(crate) fn decode_lossy(bytes: &Vec<u8>) -> (text: String)
    ensures
        text@ == lossy_text(bytes@),
        valid_utf8(bytes@) ==> text@ == decode_utf8(bytes@),
        is_plain_bytes(bytes@) ==> is_plain_name(text@),
{
    String::from_utf8_lossy(bytes).into_owned()
}

/// Calls `String::from_utf8` of std.
///
/// Claimed, and not proved: there is a text exactly if the bytes are UTF-8, and
/// then it is the text that they encode.
#[verifier::external_body]
pub(crate) fn decode_strict(bytes: Vec<u8>) -> (text: Option<String>)
    ensures
        text is Some == valid_utf8(bytes@),
        text matches Some(name) ==> name@ == decode_utf8(bytes@),
{
    String::from_utf8(bytes).ok()
}

/// The new name of an entry called `name`, given the form C of that name: none if
/// the two are the same.
pub fn changed_name(name: &str, nfc: String) -> (new_name: Option<String>)
    ensures
        match new_name {
            Some(text) => text@ == nfc@ && nfc@ != name@,
            None => nfc@ == name@,
        },
{
    if nfc == name.to_owned() {
        None
    } else {
        Some(nfc)
    }
}

/// The name in form C that an entry called `name` has to be given: none if it is
/// in form C already. The quick check settles most names without normalizing.
pub fn nfc_rename(name: &str) -> (new_name: Option<String>)
    ensures
        match new_name {
            Some(text) => {
                &&& !is_nfc(name@)
                &&& text@ == nfc_form(name@)
                &&& is_nfc(text@)
                &&& is_plain_name(name@) ==> is_plain_name(text@)
            },
            None => is_nfc(name@),
        },
        new_name is Some <==> nfc_form(name@) != name@,
        new_name matches Some(text) ==> text@ == nfc_form(name@),
{
    match quick_check(name) {
        Some(true) => None,
        _ => changed_name(name, to_nfc(name)),
    }
}

/// The name of an entry, given as bytes, as text in form C. Malformed parts of it
/// are replaced.
pub fn nfc_text(bytes: &Vec<u8>) -> (text: String)
    ensures
        text@ == nfc_form(lossy_text(bytes@)),
        is_nfc(text@),
        valid_utf8(bytes@) ==> text@ == nfc_form(decode_utf8(bytes@)),
        is_plain_bytes(bytes@) ==> is_plain_name(text@),
{
    let lossy = decode_lossy(bytes);
    to_nfc(lossy.as_str())
}

/// A character is encoded in at least one byte, and the byte of a slash occurs in
/// no character but the slash.
proof fn lemma_slash_in_scalar(c: char)
    ensures
        encode_scalar(c as u32).len() > 0,
        encode_scalar(c as u32).contains(0x2f) == (c == '/'),
{
    let v = c as u32;
    let bytes = encode_scalar(v);
    vstd::utf8::char_is_scalar(c);
    assert(v < 0x80 ==> vstd::utf8::leading_byte_width_1(v) == v) by (bit_vector);
    assert(vstd::utf8::leading_byte_width_2(v) >= 0x80) by (bit_vector);
    assert(vstd::utf8::leading_byte_width_3(v) >= 0x80) by (bit_vector);
    assert(vstd::utf8::leading_byte_width_4(v) >= 0x80) by (bit_vector);
    assert(vstd::utf8::last_continuation_byte(v) >= 0x80) by (bit_vector);
    assert(vstd::utf8::second_last_continuation_byte(v) >= 0x80) by (bit_vector);
    assert(vstd::utf8::third_last_continuation_byte(v) >= 0x80) by (bit_vector);
    if v < 0x80 {
        assert(bytes[0] == v);
    }
}

/// A text holds a slash exactly if its encoding holds the byte of a slash.
proof fn lemma_slash_encoded(name: Seq<char>)
    ensures
        encode_utf8(name).contains(0x2f) == name.contains('/'),
        name.len() > 0 ==> encode_utf8(name).len() > 0,
    decreases name.len(),
{
    if name.len() > 0 {
        let head = encode_scalar(name[0] as u32);
        let rest = name.drop_first();
        lemma_slash_in_scalar(name[0]);
        lemma_slash_encoded(rest);
        assert(encode_utf8(name) == head + encode_utf8(rest));
        if name.contains('/') {
            if name[0] == '/' {
                let j = choose|j: int| 0 <= j < head.len() && head[j] == 0x2f;
                assert(encode_utf8(name)[j] == 0x2f);
            } else {
                let i = choose|i: int| 0 <= i < name.len() && name[i] == '/';
                assert(rest[i - 1] == '/');
                let j = choose|j: int|
                    0 <= j < encode_utf8(rest).len() && encode_utf8(rest)[j] == 0x2f;
                assert(encode_utf8(name)[head.len() + j] == 0x2f);
            }
        }
        if encode_utf8(name).contains(0x2f) {
            let j = choose|j: int|
                0 <= j < encode_utf8(name).len() && encode_utf8(name)[j] == 0x2f;
            if j < head.len() {
                assert(head[j] == 0x2f);
                assert(name[0] == '/');
            } else {
                assert(encode_utf8(rest)[j - head.len()] == 0x2f);
                let i = choose|i: int| 0 <= i < rest.len() && rest[i] == '/';
                assert(name[i + 1] == '/');
            }
        }
    }
}

/// Two texts with one encoding are one text.
proof fn lemma_encoding_injective(a: Seq<char>, b: Seq<char>)
    requires
        encode_utf8(a) == encode_utf8(b),
    ensures
        a == b,
{
    vstd::utf8::encode_utf8_decode_utf8(a);
    vstd::utf8::encode_utf8_decode_utf8(b);
}

/// A text names a directory entry exactly if its bytes do.
pub proof fn lemma_plain_encoded(name: Seq<char>)
    ensures
        is_plain_bytes(encode_utf8(name)) == is_plain_name(name),
{
    lemma_slash_encoded(name);
    vstd::utf8::is_ascii_chars_encode_utf8(seq!['.']);
    assert(encode_utf8(seq!['.']) =~= seq![0x2eu8]);
    vstd::utf8::is_ascii_chars_encode_utf8(seq!['.', '.']);
    assert(encode_utf8(seq!['.', '.']) =~= seq![0x2eu8, 0x2eu8]);
    if encode_utf8(name) == seq![0x2eu8] {
        lemma_encoding_injective(name, seq!['.']);
    }
    if encode_utf8(name) == seq![0x2eu8, 0x2eu8] {
        lemma_encoding_injective(name, seq!['.', '.']);
    }
}

/// The bytes of a directory entry's name that are UTF-8 encode a text that names a
/// directory entry, and that text has those bytes.
pub proof fn lemma_plain_decoded(bytes: Seq<u8>)
    requires
        valid_utf8(bytes),
    ensures
        is_plain_name(decode_utf8(bytes)) == is_plain_bytes(bytes),
        encode_utf8(decode_utf8(bytes)) == bytes,
{
    vstd::utf8::decode_utf8_encode_utf8(bytes);
    lemma_plain_encoded(decode_utf8(bytes));
}

/// What keeps a text from naming a directory entry: that it is empty, a slash in it, or
/// that it is one dot or two. Nothing else does, however long it is.
pub proof fn law_what_names_an_entry(name: Seq<char>)
    ensures
        is_plain_name(name) <==> {
            &&& name.len() > 0
            &&& forall|i: int| 0 <= i < name.len() ==> #[trigger] name[i] != '/'
            &&& name.len() > 2 || exists|i: int| 0 <= i < name.len() && #[trigger] name[i] != '.'
        },
{
    if name.contains('/') {
        let i = choose|i: int| 0 <= i < name.len() && name[i] == '/';
        assert(name[i] == '/');
    }
    if name.len() > 0 && name.len() <= 2 && !(exists|i: int|
        0 <= i < name.len() && #[trigger] name[i] != '.') {
        assert(name[0] == '.');
        if name.len() == 1 {
            assert(name =~= seq!['.']);
        } else {
            assert(name[1] == '.');
            assert(name =~= seq!['.', '.']);
        }
    }
}

/// The same of bytes.
pub proof fn law_which_bytes_name_an_entry(name: Seq<u8>)
    ensures
        is_plain_bytes(name) <==> {
            &&& name.len() > 0
            &&& forall|i: int| 0 <= i < name.len() ==> #[trigger] name[i] != 0x2f
            &&& name.len() > 2 || exists|i: int| 0 <= i < name.len() && #[trigger] name[i] != 0x2e
        },
{
    if name.contains(0x2f) {
        let i = choose|i: int| 0 <= i < name.len() && name[i] == 0x2f;
        assert(name[i] == 0x2f);
    }
    if name.len() > 0 && name.len() <= 2 && !(exists|i: int|
        0 <= i < name.len() && #[trigger] name[i] != 0x2e) {
        assert(name[0] == 0x2e);
        if name.len() == 1 {
            assert(name =~= seq![0x2eu8]);
        } else {
            assert(name[1] == 0x2e);
            assert(name =~= seq![0x2eu8, 0x2eu8]);
        }
    }
}

/// To be in form C is to be left as it is.
pub proof fn law_form_c_is_what_stays(text: Seq<char>)
    ensures
        is_nfc(text) <==> nfc_form(text) == text,
{
}

} // verus!
