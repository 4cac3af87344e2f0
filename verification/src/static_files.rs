//! The static files of the web interface, served under their paths: the
//! content type of each file follows from the extension of its path.

use vstd::prelude::*;

verus! {

/// The extension that `std::path::Path::extension` finds in a path: the text
/// after the last `.` of the file name, when the file name holds a `.`
/// other than a leading one.
pub uninterp spec fn spec_path_extension(path: Seq<char>) -> Option<Seq<char>>;

/// Calls `std::path::Path::extension` on the path, and reads the extension
/// as text. The result depends on the path alone.
#[verifier::external_body]
fn path_extension(path: &str) -> (r: Option<String>)
    ensures
        match r {
            Some(e) => spec_path_extension(path@) == Some(e@),
            None => spec_path_extension(path@) is None,
        },
{
    std::path::Path::new(path).extension().and_then(|e| e.to_str()).map(String::from)
}

/// The media type, without parameters, that `mime_guess` gives first for a
/// file extension, if it knows the extension.
pub uninterp spec fn spec_mime_of_ext(ext: Seq<char>) -> Option<Seq<char>>;

/// Calls `mime_guess::from_ext` and takes the essence (type and subtype) of
/// the first guess, `MimeGuess::first` and `Mime::essence_str`. The result
/// depends on the extension alone; the empty extension has no guess.
#[verifier::external_body]
fn first_mime_of_ext(ext: &str) -> (r: Option<String>)
    ensures
        match r {
            Some(m) => spec_mime_of_ext(ext@) == Some(m@),
            None => spec_mime_of_ext(ext@) is None,
        },
        ext@.len() == 0 ==> r is None,
{
    mime_guess::from_ext(ext).first().map(|m| m.essence_str().to_string())
}

/// The essence of `mime::TEXT_PLAIN_UTF_8`: `text/plain`.
#[verifier::external_body]
fn text_plain_essence() -> (r: String)
    ensures
        r@ == "text/plain"@,
{
    mime::TEXT_PLAIN_UTF_8.essence_str().to_string()
}

/// The extension of a path as the content type lookup reads it: empty when
/// there is none.
pub open spec fn extension_text(path: Seq<char>) -> Seq<char> {
    match spec_path_extension(path) {
        Some(e) => e,
        None => Seq::empty(),
    }
}

/// The content type of a file of the given guess: the guess, or plain text
/// when there is none.
pub fn content_type_or_text(guess: Option<String>) -> (r: String)
    ensures
        r@ == match guess {
            Some(m) => m@,
            None => "text/plain"@,
        },
{
    match guess {
        Some(m) => m,
        None => text_plain_essence(),
    }
}

/// The content type under which a static file is served: the media type
/// guessed from the extension of its path, or plain text.
pub fn content_type(path: &str) -> (r: String)
    ensures
        r@ == match spec_mime_of_ext(extension_text(path@)) {
            Some(m) => m,
            None => "text/plain"@,
        },
{
    let ext = match path_extension(path) {
        Some(e) => e,
        None => String::new(),
    };
    let guess = first_mime_of_ext(ext.as_str());
    content_type_or_text(guess)
}

} // verus!
