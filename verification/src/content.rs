use vstd::prelude::*;
use vstd::string::{StringExecFns, StrSliceExecFns};
use vstd::utf8::encode_utf8;
use crate::DocsmanError;
use crate::encode::{base64_of, encode_base64, html_of, json_of, legend_json, render_markdown};
use crate::paths::ResolvedPath;
use crate::template::{fill_layout, fill_spec, page_key_spec, content_key_spec, title_key_spec,
    legend_key_spec, title_key, content_key, page_key, legend_key};

verus! {

/// The response page: the template with the four placeholder tokens
/// replaced, in a fixed order, by the title, the opaquely encoded content,
/// the request path and the opaquely encoded legend.
pub open spec fn page_bytes(
    t: Seq<u8>,
    title: Seq<u8>,
    content: Seq<u8>,
    page: Seq<u8>,
    legend: Seq<u8>,
) -> Seq<u8> {
    fill_spec(
        t,
        seq![
            (title_key_spec(), title),
            (content_key_spec(), content),
            (page_key_spec(), page),
            (legend_key_spec(), legend),
        ],
    )
}

/// The page a request path asks for. The root request — an empty path once
/// the leading slash is gone — is a fixed alias for `index.md` under the
/// sandbox root; any other path names that file itself.
pub fn requested_page(raw: &String) -> (r: String)
    ensures
        raw@.len() == 0 ==> r@ == "index.md"@,
        raw@.len() > 0 ==> r@ == raw@,
{
    if raw.as_str().is_empty() {
        String::from_str("index.md")
    } else {
        raw.clone()
    }
}

/// Embed the four already-computed values into the page template. The
/// content and legend values are expected opaquely encoded (base64), so that
/// arbitrary rendered HTML or JSON cannot break the template's own markup;
/// the title and the request path are inserted as given.
pub fn assemble_page(
    template: &Vec<u8>,
    title: &String,
    content_b64: &String,
    page: &String,
    legend_b64: &String,
) -> (r: Vec<u8>)
    ensures
        r@ == page_bytes(
            template@,
            encode_utf8(title@),
            encode_utf8(content_b64@),
            encode_utf8(page@),
            encode_utf8(legend_b64@),
        ),
{
    let mut entries: Vec<(Vec<u8>, Vec<u8>)> = Vec::new();
    entries.push((title_key(), title.as_str().as_bytes_vec()));
    entries.push((content_key(), content_b64.as_str().as_bytes_vec()));
    entries.push((page_key(), page.as_str().as_bytes_vec()));
    entries.push((legend_key(), legend_b64.as_str().as_bytes_vec()));
    let r = fill_layout(template, &entries);
    proof {
        assert(entries@.map_values(|e: (Vec<u8>, Vec<u8>)| (e.0@, e.1@)) =~= seq![
            (title_key_spec(), encode_utf8(title@)),
            (content_key_spec(), encode_utf8(content_b64@)),
            (page_key_spec(), encode_utf8(page@)),
            (legend_key_spec(), encode_utf8(legend_b64@)),
        ]);
    }
    r
}

/// The full response page for a request: the template filled with the file's
/// base name as title, the base64 of the rendered HTML as content, the
/// request path, and the base64 of the legend serialized as JSON.
pub open spec fn rendered_page_spec(
    template: Seq<u8>,
    title: Seq<char>,
    source: Seq<char>,
    page: Seq<char>,
    legend_text: Seq<char>,
) -> Seq<u8> {
    page_bytes(
        template,
        encode_utf8(title),
        encode_utf8(base64_of(encode_utf8(html_of(source)))),
        encode_utf8(page),
        encode_utf8(base64_of(encode_utf8(legend_text))),
    )
}

/// Render one request's page: render the Markdown source to HTML, encode the
/// content and the legend opaquely, and fill the template. `resolved` names
/// the file `source` was read from; `page` is the request path as the client
/// sent it, echoed into the page so the client can match live-reload events
/// against what it displays; the legend is included only when that feature
/// is enabled, an empty listing standing in otherwise. A rendering or
/// serialization failure is reported as a render error.
pub fn render_page(
    template: &Vec<u8>,
    resolved: &ResolvedPath,
    page: &String,
    source: &String,
    legend: &Vec<String>,
    legend_enabled: bool,
) -> (r: Result<Vec<u8>, DocsmanError>)
    requires
        resolved.path().len() > 0,
    ensures
        r matches Ok(v) ==> v@ == rendered_page_spec(
            template@,
            resolved.path().last(),
            source@,
            page@,
            json_of(
                if legend_enabled {
                    legend.deep_view()
                } else {
                    Seq::<Seq<char>>::empty()
                },
            ),
        ),
        r matches Err(e) ==> e == DocsmanError::Render,
        r is Err ==> encode_utf8(html_of(source@)).len() >= 0x4000000000000000 || encode_utf8(
            json_of(
                if legend_enabled {
                    legend.deep_view()
                } else {
                    Seq::<Seq<char>>::empty()
                },
            ),
        ).len() >= 0x4000000000000000,
{
    let title = match resolved.file_name() {
        Some(t) => t,
        None => {
            return Err(DocsmanError::Render);
        },
    };
    let html = match render_markdown(source.as_str()) {
        Ok(h) => h,
        Err(_) => {
            return Err(DocsmanError::Render);
        },
    };
    let html_bytes = html.as_str().as_bytes_vec();
    if html_bytes.len() as u64 >= 0x4000000000000000u64 {
        return Err(DocsmanError::Render);
    }
    let content_b64 = encode_base64(&html_bytes);
    let empty_legend: Vec<String> = Vec::new();
    let chosen = if legend_enabled {
        legend
    } else {
        &empty_legend
    };
    proof {
        if !legend_enabled {
            assert(chosen.deep_view() =~= Seq::<Seq<char>>::empty());
        }
    }
    let legend_text = match legend_json(chosen) {
        Ok(s) => s,
        Err(_) => {
            return Err(DocsmanError::Render);
        },
    };
    let legend_bytes = legend_text.as_str().as_bytes_vec();
    if legend_bytes.len() as u64 >= 0x4000000000000000u64 {
        return Err(DocsmanError::Render);
    }
    let legend_b64 = encode_base64(&legend_bytes);
    Ok(assemble_page(template, &title, &content_b64, page, &legend_b64))
}

} // verus!
