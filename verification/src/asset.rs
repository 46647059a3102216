//! Loading script assets: choosing the format from the file extension and
//! reading `.rat` bytes or an already deserialised `.ron` script.

use vstd::prelude::*;
use vstd::utf8::{decode_utf8, length_of_first_scalar, pop_first_scalar, valid_utf8};

use crate::rat_format::{parse_rat_script, rat_script_spec, RatScriptAssetLoaderError};
use crate::script::{RatScript, ScriptModel};
use crate::script_ron::{script_from_ron, RatScriptRon};
use crate::text::{ascii_lower_seq, ascii_lowercase, chars_eq, chars_of, string_from_chars};

verus! {

/// Decodes UTF-8 with `std::str::from_utf8`: `Ok` exactly when the bytes are valid
/// UTF-8, and then the characters they encode.
#[verifier::external_body]
fn str_from_utf8(bytes: &[u8]) -> (r: Result<&str, core::str::Utf8Error>)
    ensures
        r is Ok <==> valid_utf8(bytes@),
        r matches Ok(s) ==> s@ == decode_utf8(bytes@),
{
    core::str::from_utf8(bytes)
}

proof fn lemma_decoded_len(bytes: Seq<u8>)
    requires
        valid_utf8(bytes),
    ensures
        decode_utf8(bytes).len() <= bytes.len(),
    decreases bytes.len(),
{
    if bytes.len() > 0 {
        let l = length_of_first_scalar(bytes);
        assert(1 <= l <= bytes.len());
        assert(pop_first_scalar(bytes).len() == bytes.len() - l);
        lemma_decoded_len(pop_first_scalar(bytes));
    }
}

/// The two script formats.
#[derive(Debug, Clone, Copy, PartialEq, Eq, Structural)]
pub enum ScriptFormat {
    Rat,
    Ron,
}

/// The format an extension names, compared without regard to ASCII case.
pub open spec fn format_for_extension(ext: Seq<char>) -> Option<ScriptFormat> {
    let e = ascii_lower_seq(ext);
    if e == "rat"@ {
        Some(ScriptFormat::Rat)
    } else if e == "ron"@ {
        Some(ScriptFormat::Ron)
    } else {
        None
    }
}

/// The format of a script file from its extension; any other extension is refused
/// with the extension in lowercase.
pub fn script_format(extension: &str) -> (r: Result<ScriptFormat, RatScriptAssetLoaderError>)
    ensures
        match format_for_extension(extension@) {
            Some(f) => r == Ok::<ScriptFormat, RatScriptAssetLoaderError>(f),
            None => r matches Err(RatScriptAssetLoaderError::UnsupportedExtension(e)) && e@
                == ascii_lower_seq(extension@),
        },
{
    let chars = chars_of(extension);
    let lower = ascii_lowercase(&chars);
    let rat = chars_of("rat");
    let ron = chars_of("ron");
    if chars_eq(&lower, &rat) {
        Ok(ScriptFormat::Rat)
    } else if chars_eq(&lower, &ron) {
        Ok(ScriptFormat::Ron)
    } else {
        Err(RatScriptAssetLoaderError::UnsupportedExtension(string_from_chars(&lower)))
    }
}

/// Reads `.rat` bytes: bytes that are not UTF-8 give `Utf8`, otherwise the text is
/// read as `parse_rat_script` reads it.
pub fn load_rat_bytes(bytes: &[u8], fallback_script_id: &str) -> (r: Result<
    RatScript,
    RatScriptAssetLoaderError,
>)
    requires
        bytes@.len() < usize::MAX,
    ensures
        !valid_utf8(bytes@) ==> r matches Err(RatScriptAssetLoaderError::Utf8(_)),
        valid_utf8(bytes@) ==> match rat_script_spec(decode_utf8(bytes@), fallback_script_id@) {
            Ok(m) => r matches Ok(s) && s@ == m && s.well_formed(),
            Err(e) => r matches Err(RatScriptAssetLoaderError::Invalid(x)) && x@ == e,
        },
{
    match str_from_utf8(bytes) {
        Err(e) => Err(RatScriptAssetLoaderError::Utf8(e)),
        Ok(content) => {
            proof {
                lemma_decoded_len(bytes@);
            }
            parse_rat_script(content, fallback_script_id)
        },
    }
}

/// Reads a deserialised `.ron` script; a script `try_from_ron` refuses is `Invalid`
/// with its message.
pub fn load_ron_script(raw: RatScriptRon) -> (r: Result<RatScript, RatScriptAssetLoaderError>)
    ensures
        match script_from_ron(raw@) {
            Ok(m) => r matches Ok(s) && s@ == m,
            Err(e) => r matches Err(RatScriptAssetLoaderError::Invalid(x)) && x@ == e,
        },
{
    match RatScript::try_from_ron(raw) {
        Ok(s) => Ok(s),
        Err(msg) => Err(RatScriptAssetLoaderError::Invalid(msg)),
    }
}

} // verus!
