//! The rules for uploaded model files: which names and types are accepted,
//! and under which name a file is stored.

use vstd::prelude::*;
use vstd::string::StrSliceExecFns;
use vstd::string::StringExecFns;
use crate::ident::{format_uuid, random_uuid, uuid_text};
use crate::text::{ends_with_text, is_suffix, lowercase, lowercase_text, text_is_str};

verus! {

/// The largest accepted upload, in bytes: 50 MiB.
pub const MAX_FILE_SIZE: usize = 52_428_800;

/// Whether a character is a letter or a digit, as `char::is_alphanumeric`
/// decides it from the Unicode tables.
pub uninterp spec fn char_is_alphanumeric(c: char) -> bool;

/// `char::is_alphanumeric`: the answer is a matter of the character alone.
pub assume_specification[ char::is_alphanumeric ](c: char) -> (b: bool)
    ensures
        b == char_is_alphanumeric(c),
;

/// `String::push`: the character is appended to the end of the text.
pub assume_specification[ String::push ](s: &mut String, c: char)
    ensures
        final(s)@ == old(s)@.push(c),
;

/// Where the last dot of a text stands, if the text holds one.
pub open spec fn last_dot(name: Seq<char>) -> Option<int>
    decreases name.len(),
{
    if name.len() == 0 {
        None
    } else if name.last() == '.' {
        Some(name.len() - 1)
    } else {
        last_dot(name.drop_last())
    }
}

/// The extension of a file name that holds no path separator: what
/// follows the last dot. A name without a dot has none, nor has one whose
/// only dot is its first character, nor the name of two dots alone.
pub open spec fn extension_text(name: Seq<char>) -> Option<Seq<char>> {
    match last_dot(name) {
        Some(i) => if i == 0 || (name.len() == 2 && name[0] == '.') {
            None
        } else {
            Some(name.subrange(i + 1, name.len() as int))
        },
        None => None,
    }
}

/// The extension of a file name, without the dot before it.
pub fn extension_of(file_name: &str) -> (extension: Option<String>)
    ensures
        match extension_text(file_name@) {
            Some(e) => extension matches Some(found) && found@ == e,
            None => extension is None,
        },
{
    let n = file_name.unicode_len();
    let mut i: usize = n;
    proof {
        assert(file_name@.take(n as int) =~= file_name@);
    }
    while i > 0
        invariant
            n == file_name@.len(),
            i <= n,
            last_dot(file_name@) == last_dot(file_name@.take(i as int)),
        decreases i,
    {
        if file_name.get_char(i - 1) == '.' {
            if i == 1 || (n == 2 && file_name.get_char(0) == '.') {
                return None;
            }
            return Some(file_name.substring_char(i, n).to_owned());
        }
        proof {
            assert(file_name@.take(i as int).drop_last() =~= file_name@.take(i - 1));
        }
        i -= 1;
    }
    None
}

/// Whether a character may stay in a file name: a letter, a digit, a dot,
/// an underscore or a hyphen.
pub open spec fn is_safe_char(c: char) -> bool {
    char_is_alphanumeric(c) || c == '.' || c == '_' || c == '-'
}

/// A text without the characters that may not stay in a file name.
pub open spec fn sanitized(text: Seq<char>) -> Seq<char>
    decreases text.len(),
{
    if text.len() == 0 {
        Seq::empty()
    } else if is_safe_char(text.last()) {
        sanitized(text.drop_last()).push(text.last())
    } else {
        sanitized(text.drop_last())
    }
}

/// Every character of a sanitized text is one that may stay in a file
/// name, and sanitizing never makes a text longer.
pub proof fn lemma_sanitized_is_safe(text: Seq<char>)
    ensures
        forall|i: int| 0 <= i < sanitized(text).len() ==> is_safe_char(#[trigger] sanitized(text)[i]),
        sanitized(text).len() <= text.len(),
    decreases text.len(),
{
    if text.len() > 0 {
        lemma_sanitized_is_safe(text.drop_last());
    }
}

/// Drops from a file name every character that is not a letter, a digit,
/// a dot, an underscore or a hyphen.
pub fn sanitize_filename(filename: &str) -> (clean: String)
    ensures
        clean@ == sanitized(filename@),
{
    let mut clean = String::new();
    let n = filename.unicode_len();
    let mut i: usize = 0;
    while i < n
        invariant
            n == filename@.len(),
            i <= n,
            clean@ == sanitized(filename@.take(i as int)),
        decreases n - i,
    {
        proof {
            assert(filename@.take(i + 1).drop_last() =~= filename@.take(i as int));
        }
        let c = filename.get_char(i);
        if c.is_alphanumeric() || c == '.' || c == '_' || c == '-' {
            clean.push(c);
        }
        i += 1;
    }
    proof {
        assert(filename@.take(n as int) =~= filename@);
    }
    clean
}

/// Whether a content type is one of those of model files.
pub open spec fn is_model_mime(content_type: Seq<char>) -> bool {
    content_type == "model/gltf-binary"@ || content_type == "application/octet-stream"@
        || content_type == "model/gltf+json"@
}

/// Whether a file name ends like a model file, whatever the case of its letters.
pub open spec fn has_model_extension(file_name: Seq<char>) -> bool {
    is_suffix(lowercase_text(file_name), ".glb"@) || is_suffix(lowercase_text(file_name), ".gltf"@)
}

/// Why an upload is refused.
#[derive(Clone, Copy, Debug, PartialEq, Eq, Structural)]
pub enum UploadError {
    /// The file is larger than the limit.
    TooLarge,
    /// No file name came with the upload.
    NoFile,
    /// Neither the name nor the content type is that of a model file.
    InvalidType,
}

/// The verdict on an upload: the size is looked at first, then the name,
/// then the type.
pub open spec fn upload_verdict(file_name: Seq<char>, content_type: Seq<char>, size: usize)
    -> Result<(), UploadError> {
    if size > MAX_FILE_SIZE {
        Err(UploadError::TooLarge)
    } else if file_name.len() == 0 {
        Err(UploadError::NoFile)
    } else if !(has_model_extension(file_name) || is_model_mime(content_type)) {
        Err(UploadError::InvalidType)
    } else {
        Ok(())
    }
}

/// Accepts or refuses an upload by its sanitized file name, its content
/// type and its size in bytes.
pub fn check_upload(file_name: &str, content_type: &str, size: usize) -> (verdict: Result<
    (),
    UploadError,
>)
    ensures
        verdict == upload_verdict(file_name@, content_type@, size),
{
    if size > MAX_FILE_SIZE {
        return Err(UploadError::TooLarge);
    }
    if file_name.unicode_len() == 0 {
        return Err(UploadError::NoFile);
    }
    let is_valid_mime = text_is_str(content_type, "model/gltf-binary") || text_is_str(
        content_type,
        "application/octet-stream",
    ) || text_is_str(content_type, "model/gltf+json");
    let lower = lowercase(file_name);
    let is_glb_file = ends_with_text(lower.as_str(), ".glb");
    let is_gltf_file = ends_with_text(lower.as_str(), ".gltf");
    if is_glb_file || is_gltf_file || is_valid_mime {
        Ok(())
    } else {
        Err(UploadError::InvalidType)
    }
}

/// The path under which the file of a model is stored: the model id, a
/// dot and the extension, or `bin` where there is none, in the directory of
/// the models.
pub open spec fn storage_path_text(model_id: Seq<char>, extension: Option<Seq<char>>) -> Seq<char> {
    "uploads/models/"@ + model_id + "."@ + (match extension {
        Some(e) => e,
        None => "bin"@,
    })
}

/// The path under which the file of a model with this extension is stored.
pub fn storage_path_with(model_id: &str, extension: Option<&str>) -> (path: String)
    ensures
        path@ == storage_path_text(
            model_id@,
            match extension {
                Some(e) => Some(e@),
                None => None,
            },
        ),
{
    let mut path = "uploads/models/".to_owned();
    path.append(model_id);
    path.append(".");
    match extension {
        Some(e) => {
            path.append(e);
        },
        None => {
            path.append("bin");
        },
    }
    path
}

/// The path under which the file of a model is stored, with the
/// extension of the uploaded name.
pub fn storage_path(model_id: &str, file_name: &str) -> (path: String)
    ensures
        path@ == storage_path_text(model_id@, extension_text(file_name@)),
{
    match extension_of(file_name) {
        Some(e) => storage_path_with(model_id, Some(e.as_str())),
        None => storage_path_with(model_id, None),
    }
}

/// A fresh id for a model: the text of a random UUID.
pub fn new_model_id() -> (id: String)
    ensures
        exists|number: u128| id@ == #[trigger] uuid_text(number),
{
    let number = random_uuid();
    let id = format_uuid(number);
    assert(id@ == uuid_text(number));
    id
}

} // verus!
