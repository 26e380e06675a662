use vstd::prelude::*;
use vstd::string::{StringExecFns, StrSliceExecFns};
use vstd::utf8::encode_utf8;
use crate::encode::{base64_of, encode_base64, json_of, legend_json};
use crate::registry::{PushConnection, WebsocketManager};

verus! {

/// The raw filesystem notification kinds the watch pipeline distinguishes.
/// Everything the watcher reports that is not a modification, a creation or
/// a removal falls under `Other`.
#[derive(Clone, Copy, Debug, PartialEq, Eq, Structural)]
pub enum RawEventKind {
    Modify,
    Create,
    Remove,
    Other,
}

/// A semantic change event. A modification carries the changed file's path
/// relative to the sandbox root; creations and removals carry no path and
/// instead trigger a full legend refresh.
#[derive(Debug, PartialEq, Eq)]
pub enum ChangeEvent {
    Modified(String),
    Created,
    Removed,
}

/// Classify a raw notification: modifications become `Modified` with the
/// root-relative path, creations and removals become the path-less
/// `Created` and `Removed`, and every other notification kind is ignored.
pub fn classify(kind: RawEventKind, path: String) -> (r: Option<ChangeEvent>)
    ensures
        kind is Modify ==> r == Some(ChangeEvent::Modified(path)),
        kind is Create ==> r == Some(ChangeEvent::Created),
        kind is Remove ==> r == Some(ChangeEvent::Removed),
        kind is Other ==> r is None,
{
    match kind {
        RawEventKind::Modify => Some(ChangeEvent::Modified(path)),
        RawEventKind::Create => Some(ChangeEvent::Created),
        RawEventKind::Remove => Some(ChangeEvent::Removed),
        RawEventKind::Other => None,
    }
}

/// The lower-case hexadecimal digit for `d`.
pub open spec fn hex_digit_spec(d: u8) -> char {
    if d < 10 {
        (48 + d) as char
    } else {
        (87 + d) as char
    }
}

/// How one character is written inside a JSON string: quote and backslash
/// get a backslash escape, control characters become `\u00` and two hex
/// digits, and everything else stands for itself.
pub open spec fn json_escape_char(c: char) -> Seq<char> {
    if c == '"' {
        seq!['\\', '"']
    } else if c == '\\' {
        seq!['\\', '\\']
    } else if (c as u32) < 32 {
        seq!['\\', 'u', '0', '0', hex_digit_spec(((c as u32) / 16) as u8), hex_digit_spec(
            ((c as u32) % 16) as u8,
        )]
    } else {
        seq![c]
    }
}

/// `s` escaped for embedding inside a JSON string literal.
pub open spec fn json_escape_spec(s: Seq<char>) -> Seq<char>
    decreases s.len(),
{
    if s.len() == 0 {
        Seq::<char>::empty()
    } else {
        json_escape_char(s[0]) + json_escape_spec(s.skip(1))
    }
}

/// The lower-case hexadecimal digit for `d`.
fn hex_digit(d: u8) -> (r: &'static str)
    requires
        d < 16,
    ensures
        r@ == seq![hex_digit_spec(d)],
{
    proof {
        reveal_strlit("0");
        reveal_strlit("1");
        reveal_strlit("2");
        reveal_strlit("3");
        reveal_strlit("4");
        reveal_strlit("5");
        reveal_strlit("6");
        reveal_strlit("7");
        reveal_strlit("8");
        reveal_strlit("9");
        reveal_strlit("a");
        reveal_strlit("b");
        reveal_strlit("c");
        reveal_strlit("d");
        reveal_strlit("e");
        reveal_strlit("f");
    }
    match d {
        0 => "0",
        1 => "1",
        2 => "2",
        3 => "3",
        4 => "4",
        5 => "5",
        6 => "6",
        7 => "7",
        8 => "8",
        9 => "9",
        10 => "a",
        11 => "b",
        12 => "c",
        13 => "d",
        14 => "e",
        _ => "f",
    }
}

/// Escape `s` for embedding inside a JSON string literal, so that an
/// arbitrary path cannot break out of the structured message around it.
pub fn json_escape(s: &String) -> (r: String)
    ensures
        r@ == json_escape_spec(s@),
{
    let n = s.as_str().unicode_len();
    let mut r = String::new();
    let mut i: usize = 0;
    proof {
        assert(s@.skip(0) =~= s@);
    }
    while i < n
        invariant
            n == s@.len(),
            i <= n,
            r@ + json_escape_spec(s@.skip(i as int)) == json_escape_spec(s@),
        decreases n - i,
    {
        let ghost pre = r@;
        let ghost rest = s@.skip(i as int);
        let c = s.as_str().get_char(i);
        proof {
            assert(rest[0] == s@[i as int]);
            assert(rest.skip(1) =~= s@.skip(i as int + 1));
            reveal_strlit("\\\"");
            reveal_strlit("\\\\");
            reveal_strlit("\\u00");
        }
        if c == '"' {
            r.append("\\\"");
        } else if c == '\\' {
            r.append("\\\\");
        } else if (c as u32) < 32 {
            r.append("\\u00");
            let code = c as u32;
            r.append(hex_digit((code / 16) as u8));
            r.append(hex_digit((code % 16) as u8));
        } else {
            let piece = s.as_str().substring_char(i, i + 1);
            r.append(piece);
            proof {
                assert(piece@ =~= seq![s@[i as int]]);
            }
        }
        proof {
            assert(json_escape_spec(rest) == json_escape_char(rest[0]) + json_escape_spec(
                rest.skip(1),
            ));
            assert(r@ =~= pre + json_escape_char(s@[i as int]));
            assert(r@ + json_escape_spec(s@.skip(i as int + 1)) =~= pre + (json_escape_char(
                rest[0],
            ) + json_escape_spec(rest.skip(1))));
        }
        i += 1;
    }
    proof {
        assert(s@.skip(i as int) =~= Seq::<char>::empty());
        assert(r@ + json_escape_spec(s@.skip(i as int)) =~= r@);
    }
    r
}

/// The structured page-update notification naming the changed page, the
/// path escaped so the message stays well-formed JSON whatever the path
/// holds.
pub open spec fn page_update_message_spec(page: Seq<char>) -> Seq<char> {
    "{\"event\":\"pageupdate\",\"data\":{\"page\":\""@ + json_escape_spec(page) + "\"}}"@
}

/// The structured legend-update notification carrying the opaquely encoded
/// legend, escaped the same way (base64 text never needs it, but the message
/// builder does not rely on that).
pub open spec fn legend_update_message_spec(legend_b64: Seq<char>) -> Seq<char> {
    "{\"event\":\"legendupdate\",\"data\":{\"legend\":\""@ + json_escape_spec(legend_b64) + "\"}}"@
}

/// The page-update message for `page`.
pub fn page_update_message(page: &String) -> (r: String)
    ensures
        r@ == page_update_message_spec(page@),
{
    let mut r = String::from_str("{\"event\":\"pageupdate\",\"data\":{\"page\":\"");
    let escaped = json_escape(page);
    r.append(escaped.as_str());
    r.append("\"}}");
    proof {
        assert(r@ =~= page_update_message_spec(page@));
    }
    r
}

/// The legend-update message for an already-encoded legend.
pub fn legend_update_message(legend_b64: &String) -> (r: String)
    ensures
        r@ == legend_update_message_spec(legend_b64@),
{
    let mut r = String::from_str("{\"event\":\"legendupdate\",\"data\":{\"legend\":\"");
    let escaped = json_escape(legend_b64);
    r.append(escaped.as_str());
    r.append("\"}}");
    proof {
        assert(r@ =~= legend_update_message_spec(legend_b64@));
    }
    r
}

/// The legend, serialized to JSON and base64-encoded for opaque embedding.
/// Only when the serialized text is too large for the encoder — a machine
/// limit no real legend reaches — does the encoding of an empty text stand
/// in, so that a legend refresh is still announced.
pub fn legend_payload(legend: &Vec<String>) -> (r: String)
    ensures
        encode_utf8(json_of(legend.deep_view())).len() < 0x4000000000000000 ==> r@ == base64_of(
            encode_utf8(json_of(legend.deep_view())),
        ),
        encode_utf8(json_of(legend.deep_view())).len() >= 0x4000000000000000 ==> r@ == base64_of(
            encode_utf8(Seq::<char>::empty()),
        ),
{
    let text = match legend_json(legend) {
        Ok(s) => s,
        Err(_) => String::new(),
    };
    let bytes = text.as_str().as_bytes_vec();
    if bytes.len() as u64 >= 0x4000000000000000u64 {
        let empty = String::new();
        let empty_bytes = empty.as_str().as_bytes_vec();
        encode_base64(&empty_bytes)
    } else {
        encode_base64(&bytes)
    }
}

/// A file was modified: broadcast the page-update message naming its
/// root-relative path to every registered connection, evicting those whose
/// send failed and returning their identifiers.
pub fn notify_file_update<C: PushConnection>(
    manager: &mut WebsocketManager<C>,
    page: &String,
) -> (removed: Vec<u128>)
    requires
        old(manager).wf(),
    ensures
        WebsocketManager::broadcast_outcome(*old(manager), *final(manager), removed@),
{
    let msg = page_update_message(page);
    manager.broadcast(&msg)
}

/// Something was created or removed: broadcast the legend-update message
/// carrying the freshly computed legend, opaquely encoded, to every
/// registered connection, evicting those whose send failed and returning
/// their identifiers.
pub fn notify_legend_update<C: PushConnection>(
    manager: &mut WebsocketManager<C>,
    legend: &Vec<String>,
) -> (removed: Vec<u128>)
    requires
        old(manager).wf(),
    ensures
        WebsocketManager::broadcast_outcome(*old(manager), *final(manager), removed@),
{
    let payload = legend_payload(legend);
    let msg = legend_update_message(&payload);
    manager.broadcast(&msg)
}

} // verus!
