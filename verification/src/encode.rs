use vstd::prelude::*;

verus! {

/// The standard-alphabet, padded base64 encoding of `bytes`, as the base64
/// crate's standard engine computes it from the bytes alone.
pub uninterp spec fn base64_of(bytes: Seq<u8>) -> Seq<char>;

/// The JSON array of strings that serde_json serializes `items` to, a
/// function of the items alone.
pub uninterp spec fn json_of(items: Seq<Seq<char>>) -> Seq<char>;

/// The HTML that the markdown crate renders `text` to under this library's
/// fixed options (dangerous HTML, protocols and image sources allowed, as
/// served content is trusted local documentation), a function of the text
/// alone.
pub uninterp spec fn html_of(text: Seq<char>) -> Seq<char>;

/// markdown::message::Message, the markdown crate's rendering error, carried
/// opaquely: the library only maps it to its own render error.
#[verifier::external_type_specification]
#[verifier::external_body]
pub struct ExMarkdownMessage(markdown::message::Message);

/// serde_json::Error, serde_json's serialization error, carried opaquely:
/// the library only maps it to its own render error.
#[verifier::external_type_specification]
#[verifier::external_body]
pub struct ExJsonError(serde_json::Error);

/// Relies on base64::engine::Engine::encode with base64::prelude::BASE64_STANDARD:
/// the encoding is a deterministic function of the input bytes. encode panics
/// only when the padded output length overflows usize, so inputs that large
/// are excluded here.
#[verifier::external_body]
pub(crate) fn encode_base64(bytes: &Vec<u8>) -> (r: String)
    requires
        bytes@.len() < 0x4000000000000000,
    ensures
        r@ == base64_of(bytes@),
{
    base64::Engine::encode(&base64::prelude::BASE64_STANDARD, bytes.as_slice())
}

/// Relies on serde_json::to_string for a list of strings: the output is the
/// JSON array holding the items, a deterministic function of the items
/// alone. Its documentation says serialization fails only when a Serialize
/// implementation decides to fail or a map has non-string keys; a list of
/// strings does neither, so the call succeeds.
#[verifier::external_body]
pub(crate) fn legend_json(items: &Vec<String>) -> (r: Result<String, serde_json::Error>)
    ensures
        r is Ok,
        r matches Ok(s) ==> s@ == json_of(items.deep_view()),
{
    serde_json::to_string(items)
}

/// Relies on markdown::to_html_with_options: rendering is a deterministic
/// function of the source text once the options are fixed, and this library
/// always renders with the same options. Its documentation states that it
/// never errors unless MDX is turned on, which these options never do.
#[verifier::external_body]
pub(crate) fn render_markdown(source: &str) -> (r: Result<String, markdown::message::Message>)
    ensures
        r is Ok,
        r matches Ok(html) ==> html@ == html_of(source@),
{
    markdown::to_html_with_options(
        source,
        &markdown::Options {
            compile: markdown::CompileOptions {
                allow_dangerous_html: true,
                allow_dangerous_protocol: true,
                allow_any_img_src: true,
                ..markdown::CompileOptions::default()
            },
            ..markdown::Options::default()
        },
    )
}

} // verus!
