//! Server-Sent-Events: a logical event and its wire encoding, the block
//! format an EventSource client consumes.
use vstd::prelude::*;
use vstd::string::*;
use vstd::utf8::encode_utf8;
use crate::base64::b64_encode_spec;
use crate::base64::base64_encode;
use crate::text::dec_digits;
use crate::text::u64_to_string;

verus! {

/// One event to push to a client: a payload with an optional event name,
/// id, and retry interval in milliseconds.
#[derive(Debug, Clone)]
pub struct ServerEvent {
    pub event: Option<String>,
    pub data: String,
    pub id: Option<String>,
    pub retry: Option<u64>,
}

/// The wire text of an event: its optional fields as `event:`, `id:` and
/// `retry:` lines, then the `data:` line, then the blank line that closes
/// the block.
pub open spec fn format_spec(ev: ServerEvent) -> Seq<char> {
    (match ev.event {
        Some(name) => "event: "@ + name@ + "\n"@,
        None => Seq::<char>::empty(),
    }) + (match ev.id {
        Some(id) => "id: "@ + id@ + "\n"@,
        None => Seq::<char>::empty(),
    }) + (match ev.retry {
        Some(ms) => "retry: "@ + dec_digits(ms as nat) + "\n"@,
        None => Seq::<char>::empty(),
    }) + "data: "@ + ev.data@ + "\n\n"@
}

impl ServerEvent {
    /// An event carrying only a payload.
    pub fn data(data: &str) -> (r: ServerEvent)
        ensures
            r.data@ == data@,
            r.event is None,
            r.id is None,
            r.retry is None,
    {
        ServerEvent { data: data.to_owned(), event: None, id: None, retry: None }
    }

    /// The fixed liveness probe: an ordinary data event whose payload the
    /// receiving side recognises by convention.
    pub fn keep_alive() -> (r: ServerEvent)
        ensures
            r.data@ == "event: keep-alive\ndata: ping\n"@,
            r.event is None,
            r.id is None,
            r.retry is None,
    {
        ServerEvent {
            data: "event: keep-alive\ndata: ping\n".to_owned(),
            event: None,
            id: None,
            retry: None,
        }
    }

    /// A named event; the payload is base64-encoded so that arbitrary text
    /// survives the line-oriented wire format.
    pub fn event(event: &str, data: String) -> (r: ServerEvent)
        ensures
            r.data@ == b64_encode_spec(encode_utf8(data@)),
            r.event matches Some(name) && name@ == event@,
            r.id is None,
            r.retry is None,
    {
        let base_64 = base64_encode(data.as_str().as_bytes());
        ServerEvent { data: base_64, event: Some(event.to_owned()), id: None, retry: None }
    }

    /// Renders the event block. The text is the same on every call: the
    /// encoding is pure and the event is not consumed.
    pub fn format(&self) -> (r: String)
        ensures
            r@ == format_spec(*self),
    {
        let mut out = String::new();
        match &self.event {
            Some(event_name) => {
                out.append("event: ");
                out.append(event_name.as_str());
                out.append("\n");
            },
            None => (),
        }
        match &self.id {
            Some(event_id) => {
                out.append("id: ");
                out.append(event_id.as_str());
                out.append("\n");
            },
            None => (),
        }
        match &self.retry {
            Some(retry) => {
                out.append("retry: ");
                let ms = u64_to_string(*retry);
                out.append(ms.as_str());
                out.append("\n");
            },
            None => (),
        }
        out.append("data: ");
        out.append(self.data.as_str());
        out.append("\n\n");
        proof {
            assert(out@ =~= format_spec(*self));
        }
        out
    }

    /// The event block as bytes, with no framing beyond the block itself.
    pub fn to_bytes(&self) -> (r: Vec<u8>)
        ensures
            r@ == encode_utf8(format_spec(*self)),
    {
        let formatted = self.format();
        formatted.as_str().as_bytes_vec()
    }
}

/// Every formatted event ends with a blank line — two newline characters —
/// and carries a `data: ` line, whichever optional fields are present.
pub proof fn lemma_format_shape(ev: ServerEvent)
    ensures
        format_spec(ev).len() >= 2,
        format_spec(ev)[format_spec(ev).len() - 1] == '\n',
        format_spec(ev)[format_spec(ev).len() - 2] == '\n',
        exists|i: int|
            0 <= i <= format_spec(ev).len() - 6 && #[trigger] format_spec(ev).subrange(i, i + 6)
                == "data: "@,
{
    reveal_strlit("\n\n");
    reveal_strlit("data: ");
    let text = format_spec(ev);
    let head = (match ev.event {
        Some(name) => "event: "@ + name@ + "\n"@,
        None => Seq::<char>::empty(),
    }) + (match ev.id {
        Some(id) => "id: "@ + id@ + "\n"@,
        None => Seq::<char>::empty(),
    }) + (match ev.retry {
        Some(ms) => "retry: "@ + dec_digits(ms as nat) + "\n"@,
        None => Seq::<char>::empty(),
    });
    assert(text[text.len() - 1] == "\n\n"@[1]);
    assert(text[text.len() - 2] == "\n\n"@[0]);
    let i = head.len() as int;
    assert(text.subrange(i, i + 6) =~= "data: "@);
}

} // verus!
