use vstd::prelude::*;
use crate::json::array_of;
use crate::json::doc_of;
use crate::json::json_as_array;
use crate::json::json_as_str;
use crate::json::json_clone;
use crate::json::json_get;
use crate::json::json_is_null;
use crate::json::json_text;
use crate::json::member_of;
use crate::json::null_of;
use crate::json::parse_json;
use crate::json::str_of;
use crate::json::text_of;
use crate::text::is_ws;
use crate::text::ws_only;
use crate::types::MCPTool;
use crate::types::MCPToolView;
use crate::types::ProtocolError;

verus! {

/// Whether the line holds nothing but whitespace.
pub fn is_ws_line(line: &[u8]) -> (r: bool)
    ensures
        r == ws_only(line@),
{
    let mut i: usize = 0;
    while i < line.len()
        invariant
            i <= line@.len(),
            forall|j: int| 0 <= j < i ==> is_ws(#[trigger] line@[j]),
        decreases line@.len() - i,
    {
        let b = line[i];
        if !(b == 0x20 || b == 0x09 || b == 0x0a || b == 0x0d) {
            assert(!is_ws(line@[i as int]));
            return false;
        }
        i = i + 1;
    }
    true
}

/// Settles a call once the line's probes are in hand: a present `error`
/// member fails the call with its text; otherwise a present `result` member
/// is the call's result; otherwise the response is missing its result.
pub fn finish_response(error_text: Option<String>, result: Option<serde_json::Value>) -> (r:
    Result<serde_json::Value, ProtocolError>)
    ensures
        match error_text {
            Some(m) => r == Err::<serde_json::Value, ProtocolError>(ProtocolError::ErrorField(m)),
            None => match result {
                Some(v) => r == Ok::<serde_json::Value, ProtocolError>(v),
                None => r == Err::<serde_json::Value, ProtocolError>(ProtocolError::NoResult),
            },
        },
{
    match error_text {
        Some(m) => Err(ProtocolError::ErrorField(m)),
        None => match result {
            Some(v) => Ok(v),
            None => Err(ProtocolError::NoResult),
        },
    }
}

/// Interprets one response line, completely: a whitespace-only line is the
/// empty-response error and nothing else is; a line that is not a JSON
/// document is malformed; a document with a top-level `error` member fails
/// the call with that member's text; otherwise the value under `result` is
/// the call's result, and its absence an error.
pub fn interpret_response(line: &[u8]) -> (r: Result<serde_json::Value, ProtocolError>)
    ensures
        r == Err::<serde_json::Value, ProtocolError>(ProtocolError::EmptyResponse) <==> ws_only(
            line@,
        ),
        !ws_only(line@) ==> match doc_of(line@) {
            None => r == Err::<serde_json::Value, ProtocolError>(ProtocolError::Malformed),
            Some(d) => match member_of(d, "error"@) {
                Some(e) => r matches Err(ProtocolError::ErrorField(m)) && m@ == text_of(e),
                None => match member_of(d, "result"@) {
                    Some(v) => r == Ok::<serde_json::Value, ProtocolError>(v),
                    None => r == Err::<serde_json::Value, ProtocolError>(ProtocolError::NoResult),
                },
            },
        },
{
    if is_ws_line(line) {
        return Err(ProtocolError::EmptyResponse);
    }
    match parse_json(line) {
        None => Err(ProtocolError::Malformed),
        Some(v) => {
            let error_text: Option<String> = match json_get(&v, "error") {
                Some(ev) => Some(json_text(ev)),
                None => None,
            };
            let result: Option<serde_json::Value> = match json_get(&v, "result") {
                Some(rv) => Some(json_clone(rv)),
                None => None,
            };
            finish_response(error_text, result)
        },
    }
}

/// The description one discovered entry carries: an absent or `null` member
/// is no description; a string member is the description.
pub open spec fn desc_of(v: serde_json::Value) -> Option<Seq<char>> {
    match member_of(v, "description"@) {
        None => None,
        Some(dv) => if null_of(dv) {
            None
        } else {
            str_of(dv)
        },
    }
}

/// Whether the description member, if present, is admissible: absent,
/// `null`, or a string.
pub open spec fn desc_ok(v: serde_json::Value) -> bool {
    match member_of(v, "description"@) {
        None => true,
        Some(dv) => null_of(dv) || str_of(dv) is Some,
    }
}

/// The descriptor one discovered entry decodes to: it needs a string `name`
/// member, an `inputSchema` member, and an admissible description; `None` is
/// a refusal.
pub open spec fn tool_of(v: serde_json::Value) -> Option<MCPToolView> {
    if !desc_ok(v) {
        None
    } else {
        match member_of(v, "name"@) {
            None => None,
            Some(nv) => match str_of(nv) {
                None => None,
                Some(name) => match member_of(v, "inputSchema"@) {
                    None => None,
                    Some(schema) => Some(
                        MCPToolView { name, description: desc_of(v), input_schema: schema },
                    ),
                },
            },
        }
    }
}

/// The descriptors a discovered array decodes to, in order; one refused
/// entry refuses the whole array.
pub open spec fn tools_of(items: Seq<serde_json::Value>) -> Option<Seq<MCPToolView>>
    decreases items.len(),
{
    if items.len() == 0 {
        Some(Seq::empty())
    } else {
        match tools_of(items.drop_last()) {
            None => None,
            Some(ts) => match tool_of(items.last()) {
                None => None,
                Some(t) => Some(ts.push(t)),
            },
        }
    }
}

proof fn lemma_tools_of_refused(items: Seq<serde_json::Value>, i: int)
    requires
        0 <= i < items.len(),
        tool_of(items[i]) is None,
    ensures
        tools_of(items) is None,
    decreases items.len(),
{
    if i < items.len() - 1 {
        assert(items.drop_last()[i] == items[i]);
        lemma_tools_of_refused(items.drop_last(), i);
    }
}

/// Decodes the description member of one discovered entry.
fn decode_desc(item: &serde_json::Value) -> (r: Result<Option<String>, ProtocolError>)
    ensures
        match r {
            Ok(d) => desc_ok(*item) && desc_of(*item) == (match d {
                Some(s) => Some(s@),
                None => None::<Seq<char>>,
            }),
            Err(e) => e is BadToolEntry && !desc_ok(*item),
        },
{
    match json_get(item, "description") {
        None => Ok(None),
        Some(dv) => {
            if json_is_null(dv) {
                Ok(None)
            } else {
                match json_as_str(dv) {
                    Some(d) => Ok(Some(d.to_owned())),
                    None => Err(ProtocolError::BadToolEntry),
                }
            }
        },
    }
}

/// Decodes one discovered entry into a descriptor, exactly as `tool_of`
/// reads it.
fn decode_tool(item: &serde_json::Value) -> (r: Result<MCPTool, ProtocolError>)
    ensures
        match tool_of(*item) {
            Some(tv) => r matches Ok(t) && t@ == tv,
            None => r == Err::<MCPTool, ProtocolError>(ProtocolError::BadToolEntry),
        },
{
    let description: Option<String> = match decode_desc(item) {
        Ok(d) => d,
        Err(_) => {
            return Err(ProtocolError::BadToolEntry);
        },
    };
    let name: &str = match json_get(item, "name") {
        None => {
            return Err(ProtocolError::BadToolEntry);
        },
        Some(nv) => match json_as_str(nv) {
            None => {
                return Err(ProtocolError::BadToolEntry);
            },
            Some(n) => n,
        },
    };
    let schema: &serde_json::Value = match json_get(item, "inputSchema") {
        None => {
            return Err(ProtocolError::BadToolEntry);
        },
        Some(s) => s,
    };
    let t = MCPTool { name: name.to_owned(), description, input_schema: json_clone(schema) };
    proof {
        assert(tool_of(*item) matches Some(tv) && t@ =~= tv);
    }
    Ok(t)
}

/// Decodes the discovered entries into descriptors: `Ok` exactly when every
/// entry decodes, holding the descriptors in the array's order with each
/// entry's fields carried over; one refused entry fails the whole decode.
pub fn decode_tools(items: &Vec<serde_json::Value>) -> (r: Result<Vec<MCPTool>, ProtocolError>)
    ensures
        match tools_of(items@) {
            Some(ts) => r matches Ok(out) && out@.map_values(|t: MCPTool| t@) == ts,
            None => r == Err::<Vec<MCPTool>, ProtocolError>(ProtocolError::BadToolEntry),
        },
{
    let mut out: Vec<MCPTool> = Vec::new();
    let mut i: usize = 0;
    proof {
        assert(out@.map_values(|t: MCPTool| t@) =~= Seq::<MCPToolView>::empty());
        assert(items@.subrange(0, 0).len() == 0);
    }
    while i < items.len()
        invariant
            i <= items@.len(),
            out@.len() == i,
            tools_of(items@.subrange(0, i as int)) == Some(out@.map_values(|t: MCPTool| t@)),
        decreases items@.len() - i,
    {
        let item = &items[i];
        match decode_tool(item) {
            Ok(t) => {
                let ghost pre_tools = out@.map_values(|t2: MCPTool| t2@);
                out.push(t);
                proof {
                    assert(items@.subrange(0, i + 1).drop_last() =~= items@.subrange(0, i as int));
                    assert(items@.subrange(0, i + 1).last() == items@[i as int]);
                    assert(out@.map_values(|t2: MCPTool| t2@) =~= pre_tools.push(t@));
                    assert(tools_of(items@.subrange(0, i + 1)) == Some(
                        out@.map_values(|t2: MCPTool| t2@),
                    ));
                }
            },
            Err(e) => {
                proof {
                    lemma_tools_of_refused(items@, i as int);
                }
                return Err(e);
            },
        }
        i = i + 1;
    }
    proof {
        assert(items@.subrange(0, items@.len() as int) =~= items@);
    }
    Ok(out)
}

/// The discovery result, interpreted completely: without a `tools` member
/// the discovery failed; with one that is not an array, or holds a refused
/// entry, the decode failed; otherwise `Ok` holds one descriptor per array
/// element, in order, as `tools_of` reads them.
pub fn list_tools_result(result: &serde_json::Value) -> (r: Result<Vec<MCPTool>, ProtocolError>)
    ensures
        match member_of(*result, "tools"@) {
            None => r == Err::<Vec<MCPTool>, ProtocolError>(ProtocolError::NoToolsField),
            Some(t) => match array_of(t) {
                None => r == Err::<Vec<MCPTool>, ProtocolError>(ProtocolError::BadToolEntry),
                Some(items) => match tools_of(items) {
                    Some(ts) => r matches Ok(out) && out@.map_values(|t2: MCPTool| t2@) == ts,
                    None => r == Err::<Vec<MCPTool>, ProtocolError>(ProtocolError::BadToolEntry),
                },
            },
        },
{
    match json_get(result, "tools") {
        None => Err(ProtocolError::NoToolsField),
        Some(tv) => match json_as_array(tv) {
            None => Err(ProtocolError::BadToolEntry),
            Some(items) => decode_tools(items),
        },
    }
}

} // verus!
