use vstd::prelude::*;

use crate::json::{get_spec, json_get, json_view, Json, JsonValue};
use crate::json_text::{json_parsing, parse_json};
use crate::numbers::{decimal_spec, decimal_text};
use crate::text::str_eq;

verus! {

/// A server-sent event.
pub struct HttpEvent {
    pub event: String,
    pub data: String,
    pub id: String,
    pub retry: Option<u32>,
}

/// Whether an event is one with the given name and data, no id and no retry.
pub open spec fn is_event(e: HttpEvent, name: Seq<char>, data: Seq<char>) -> bool {
    &&& e.event@ == name
    &&& e.data@ == data
    &&& e.id@ == Seq::<char>::empty()
    &&& e.retry is None
}

fn event(name: &str, data: String) -> (e: HttpEvent)
    ensures
        is_event(e, name@, data@),
{
    HttpEvent { event: String::from_str(name), data, id: String::new(), retry: None }
}

/// The data that ends a completion stream.
pub open spec fn done_marker() -> Seq<char> {
    "[DONE]"@
}

/// Whether an event's data ends the completion stream.
pub fn is_done_marker(data: &str) -> (r: bool)
    ensures
        r == (data@ == done_marker()),
{
    str_eq(data, "[DONE]")
}

/// One event of the completion stream as the parse operation reads it: the end marker, or a
/// chunk with the content of its first choice's delta (`None` where it has no choice or no
/// content).
pub enum Chunk {
    Done,
    Content(Option<String>),
}

/// The content of the first choice's delta of a completion chunk, as
/// `v["choices"][0]["delta"]["content"].as_str()` reads it.
pub open spec fn first_delta_content(v: JsonValue) -> Option<Seq<char>> {
    match get_spec(v, "choices"@) {
        Some(JsonValue::Array(items)) => if items.len() > 0 {
            match get_spec(items[0], "delta"@) {
                Some(d) => match get_spec(d, "content"@) {
                    Some(JsonValue::String(c)) => Some(c),
                    _ => None,
                },
                None => None,
            }
        } else {
            None
        },
        _ => None,
    }
}

/// Reads one event's data as the parse operation does: the end marker, or a chunk with the
/// content of its first choice's delta; `None` where the data is not JSON (the operation gives
/// up there).
pub fn read_chunk(data: &str) -> (r: Option<Chunk>)
    ensures
        data@ == done_marker() ==> r matches Some(Chunk::Done),
        data@ != done_marker() ==> match json_parsing(data@) {
            Err(_) => r is None,
            Ok(v) => r matches Some(Chunk::Content(c)) && match first_delta_content(v) {
                Some(text) => c matches Some(t) && t@ == text,
                None => c is None,
            },
        },
{
    if is_done_marker(data) {
        return Some(Chunk::Done);
    }
    let v = match parse_json(data) {
        Ok(v) => v,
        Err(_) => {
            return None;
        },
    };
    let content = match json_get(&v, "choices") {
        Some(Json::Array(items)) => {
            if items.len() > 0 {
                match json_get(&items[0], "delta") {
                    Some(d) => match json_get(d, "content") {
                        Some(Json::String(c)) => Some(c.clone()),
                        _ => None,
                    },
                    None => None,
                }
            } else {
                None
            }
        },
        _ => None,
    };
    Some(Chunk::Content(content))
}

/// The parse operation's answer to a chunk: a `message` event with the content where there
/// is one, counted as a token.
pub fn completion_step(count: u64, content: Option<String>) -> (r: (u64, Option<HttpEvent>))
    requires
        count < u64::MAX,
    ensures
        match content {
            Some(c) => r.0 == count + 1 && (r.1 matches Some(e) && is_event(e, "message"@, c@)),
            None => r.0 == count && r.1 is None,
        },
{
    match content {
        Some(c) => (count + 1, Some(event("message", c))),
        None => (count, None),
    }
}

/// The events that close the stream: the token count, then the end marker.
pub fn completion_end(count: u64) -> (out: Vec<HttpEvent>)
    ensures
        out.len() == 2,
        is_event(out@[0], "tokens"@, decimal_spec(count as nat)),
        is_event(out@[1], "message"@, done_marker()),
{
    let mut out: Vec<HttpEvent> = Vec::new();
    out.push(event("tokens", decimal_text(count)));
    out.push(event("message", String::from_str("[DONE]")));
    out
}

/// The chunks that the operation reads: those before the first end marker.
pub open spec fn read_chunks(chunks: Seq<Chunk>) -> Seq<Chunk>
    decreases chunks.len(),
{
    if chunks.len() == 0 {
        Seq::empty()
    } else if chunks[0] is Done {
        Seq::empty()
    } else {
        seq![chunks[0]] + read_chunks(chunks.drop_first())
    }
}

/// The contents that the read chunks carry, in order.
pub open spec fn contents(chunks: Seq<Chunk>) -> Seq<Seq<char>>
    decreases chunks.len(),
{
    if chunks.len() == 0 {
        Seq::empty()
    } else {
        let rest = contents(chunks.drop_first());
        match chunks[0] {
            Chunk::Content(Some(c)) => seq![c@] + rest,
            _ => rest,
        }
    }
}

/// The parse operation over a whole stream: a `message` event for each content before the end
/// marker, then a `tokens` event with their number, then the end marker.
pub fn parse_completion(chunks: &Vec<Chunk>) -> (out: (Vec<HttpEvent>, u64))
    requires
        chunks.len() < u64::MAX,
    ensures
        ({
            let cs = contents(read_chunks(chunks@));
            &&& out.1 == cs.len()
            &&& out.0.len() == cs.len() + 2
            &&& forall|i: int| 0 <= i < cs.len() ==> is_event(#[trigger] out.0@[i], "message"@, cs[i])
            &&& is_event(out.0@[cs.len() as int], "tokens"@, decimal_spec(cs.len()))
            &&& is_event(out.0@[cs.len() as int + 1], "message"@, done_marker())
        }),
{
    let ghost all = contents(read_chunks(chunks@));
    let mut events: Vec<HttpEvent> = Vec::new();
    let mut count: u64 = 0;
    let mut i: usize = 0;
    let mut stopped = false;
    assert(chunks@.skip(0) =~= chunks@);
    while i < chunks.len() && !stopped
        invariant
            all == contents(read_chunks(chunks@)),
            chunks.len() < u64::MAX,
            i <= chunks.len(),
            count as nat == events.len(),
            count <= i,
            stopped ==> events@.len() == all.len(),
            !stopped ==> all == {
                let done = Seq::new(events.len() as nat, |k: int| events@[k].data@);
                done + contents(read_chunks(chunks@.skip(i as int)))
            },
            forall|k: int| 0 <= k < events.len() ==> is_event(#[trigger] events@[k], "message"@, all[k]),
        decreases chunks.len() - i,
    {
        let ghost before = Seq::new(events.len() as nat, |k: int| events@[k].data@);
        let ghost rest = chunks@.skip(i as int);
        assert(rest[0] == chunks@[i as int]);
        assert(rest.drop_first() =~= chunks@.skip(i + 1));
        match &chunks[i] {
            Chunk::Done => {
                assert(read_chunks(rest) =~= Seq::<Chunk>::empty());
                assert(all =~= before);
                stopped = true;
            },
            Chunk::Content(c) => {
                proof {
                    let rc = read_chunks(rest.drop_first());
                    assert(read_chunks(rest) == seq![rest[0]] + rc);
                    assert((seq![rest[0]] + rc).drop_first() =~= rc);
                    assert((seq![rest[0]] + rc)[0] == rest[0]);
                }
                let content = match c {
                    Some(s) => Some(s.clone()),
                    None => None,
                };
                let (n, e) = completion_step(count, content);
                count = n;
                match e {
                    Some(ev) => {
                        events.push(ev);
                        let ghost after = Seq::new(events.len() as nat, |k: int| events@[k].data@);
                        assert(after =~= before.push(c.unwrap()@));
                        assert(contents(read_chunks(rest)) =~= seq![c.unwrap()@] + contents(read_chunks(rest.drop_first())));
                        assert(all =~= after + contents(read_chunks(chunks@.skip(i + 1))));
                    },
                    None => {
                        let ghost after = Seq::new(events.len() as nat, |k: int| events@[k].data@);
                        assert(after =~= before);
                        assert(all =~= after + contents(read_chunks(chunks@.skip(i + 1))));
                    },
                }
            },
        }
        i = i + 1;
    }
    proof {
        if !stopped {
            assert(chunks@.skip(i as int) =~= Seq::<Chunk>::empty());
            assert(all =~= Seq::new(events.len() as nat, |k: int| events@[k].data@));
        }
    }
    let mut end = completion_end(count);
    events.append(&mut end);
    (events, count)
}

} // verus!
