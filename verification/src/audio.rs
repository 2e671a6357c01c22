//! The audio sinks the bar lists, kept as PipeWire announces and withdraws
//! them. Volumes and the PipeWire connection stay with the caller.
use vstd::prelude::*;
use crate::text::{owned, str_eq};

verus! {

/// One audio sink.
#[derive(Debug, Clone, PartialEq, Eq)]
pub struct SinkInfo {
    /// The registry's global id.
    pub id: u32,
    pub serial: String,
    /// `node.name`, which volumes and commands are keyed by.
    pub name: String,
    pub description: String,
}

/// A sink as values.
pub open spec fn sink_view(s: SinkInfo) -> (u32, Seq<char>, Seq<char>, Seq<char>) {
    (s.id, s.serial@, s.name@, s.description@)
}

pub open spec fn sinks_view(v: Seq<SinkInfo>) -> Seq<(u32, Seq<char>, Seq<char>, Seq<char>)> {
    v.map_values(|s: SinkInfo| sink_view(s))
}

/// `v` without its entries of global id `id`, in order.
pub open spec fn without_id(v: Seq<(u32, Seq<char>, Seq<char>, Seq<char>)>, id: u32) -> Seq<(u32, Seq<char>, Seq<char>, Seq<char>)>
    decreases v.len(),
{
    if v.len() == 0 {
        v
    } else if v.last().0 == id {
        without_id(v.drop_last(), id)
    } else {
        without_id(v.drop_last(), id).push(v.last())
    }
}

/// The first entry of global id `id` at or after `i`.
pub open spec fn position_of(v: Seq<(u32, Seq<char>, Seq<char>, Seq<char>)>, id: u32, i: int) -> Option<int>
    decreases v.len() - i,
{
    if i < 0 || i >= v.len() {
        None
    } else if v[i].0 == id {
        Some(i)
    } else {
        position_of(v, id, i + 1)
    }
}

fn copy_sink(s: &SinkInfo) -> (c: SinkInfo)
    ensures
        sink_view(c) == sink_view(*s),
{
    SinkInfo {
        id: s.id,
        serial: owned(s.serial.as_str()),
        name: owned(s.name.as_str()),
        description: owned(s.description.as_str()),
    }
}

/// A sink node was announced: an earlier entry under the same global id is
/// replaced, and the sink goes last.
pub fn sink_added(sinks: &mut Vec<SinkInfo>, sink: SinkInfo)
    ensures
        sinks_view(final(sinks)@) == without_id(sinks_view(old(sinks)@), sink.id).push(sink_view(sink)),
{
    let ghost old_v = sinks_view(sinks@);
    let mut kept: Vec<SinkInfo> = Vec::new();
    let mut i: usize = 0;
    while i < sinks.len()
        invariant
            i <= sinks.len(),
            old_v == sinks_view(sinks@),
            sinks_view(kept@) == without_id(old_v.take(i as int), sink.id),
        decreases sinks.len() - i,
    {
        assert(old_v.take(i + 1).drop_last() == old_v.take(i as int));
        if sinks[i].id != sink.id {
            let ghost before = kept@;
            kept.push(copy_sink(&sinks[i]));
            assert(sinks_view(kept@) =~= sinks_view(before).push(old_v[i as int]));
        }
        i += 1;
    }
    assert(old_v.take(i as int) == old_v);
    let ghost before = kept@;
    let ghost added = sink_view(sink);
    kept.push(sink);
    assert(sinks_view(kept@) =~= sinks_view(before).push(added));
    *sinks = kept;
}

/// A registry global went away: the first sink of that id, if there is
/// one, leaves the list, and its name comes back so its volume and proxy
/// can be dropped too; the rest keep their order.
pub fn sink_removed(sinks: &mut Vec<SinkInfo>, id: u32) -> (name: Option<String>)
    ensures
        match position_of(sinks_view(old(sinks)@), id, 0) {
            Some(k) => name matches Some(n) && n@ == sinks_view(old(sinks)@)[k].2 && sinks_view(
                final(sinks)@,
            ) == sinks_view(old(sinks)@).remove(k),
            None => name is None && sinks_view(final(sinks)@) == sinks_view(old(sinks)@),
        },
{
    let ghost v = sinks_view(sinks@);
    let mut i: usize = 0;
    while i < sinks.len()
        invariant
            i <= sinks.len(),
            v == sinks_view(sinks@),
            v == sinks_view(old(sinks)@),
            position_of(v, id, 0) == position_of(v, id, i as int),
        decreases sinks.len() - i,
    {
        assert(v[i as int] == sink_view(sinks@[i as int]));
        if sinks[i].id == id {
            assert(position_of(v, id, i as int) == Some(i as int));
            let ghost gone = sinks@[i as int];
            let removed = sinks.remove(i);
            assert(removed == gone);
            assert(removed.name@ == v[i as int].2);
            assert(sinks_view(sinks@) =~= v.remove(i as int));
            return Some(removed.name);
        }
        i += 1;
    }
    None
}

/// The sink a registry node announces, from its properties: only a node of
/// media class `Audio/Sink` is one; a missing serial is empty, a missing
/// name `unknown`, and a missing description the name.
pub fn sink_from_props(
    id: u32,
    media_class: Option<&str>,
    serial: Option<&str>,
    name: Option<&str>,
    description: Option<&str>,
) -> (r: Option<SinkInfo>)
    ensures
        match r {
            Some(s) => {
                &&& media_class matches Some(c) && c@ == "Audio/Sink"@
                &&& s.id == id
                &&& s.serial@ == (match serial {
                    Some(x) => x@,
                    None => Seq::<char>::empty(),
                })
                &&& s.name@ == (match name {
                    Some(x) => x@,
                    None => "unknown"@,
                })
                &&& s.description@ == (match description {
                    Some(x) => x@,
                    None => s.name@,
                })
            },
            None => !(media_class matches Some(c) && c@ == "Audio/Sink"@),
        },
{
    match media_class {
        Some(c) => if !str_eq(c, "Audio/Sink") {
            return None;
        },
        None => return None,
    }
    let name = match name {
        Some(n) => owned(n),
        None => owned("unknown"),
    };
    let description = match description {
        Some(d) => owned(d),
        None => owned(name.as_str()),
    };
    let serial = match serial {
        Some(s) => owned(s),
        None => String::new(),
    };
    Some(SinkInfo { id, serial, name, description })
}

/// What `serde_json` reads as the string field `name` of the JSON object
/// `text`: none when `text` is no JSON, no object, or has no such string
/// field.
pub uninterp spec fn json_name(text: Seq<char>) -> Option<Seq<char>>;

/// `serde_json::from_str` into a `serde_json::Value`, then `Value::get`
/// of `name` and `Value::as_str`: the string field `name` of the JSON
/// object `text`. Nothing else is stated of it.
#[verifier::external_body]
fn json_name_field(text: &str) -> (r: Option<String>)
    ensures
        match r {
            Some(n) => json_name(text@) == Some(n@),
            None => json_name(text@) is None,
        },
{
    serde_json::from_str::<serde_json::Value>(text)
        .ok()
        .and_then(|j| j.get("name").and_then(|n| n.as_str()).map(String::from))
}

/// The metadata key that names the default sink.
pub open spec fn is_default_sink_key(key: Option<&str>) -> bool {
    key matches Some(k) && k@ == "default.audio.sink"@
}

/// A metadata property changed: for the default-sink key, the new default
/// sink's name, read from the JSON value (`{"name": ...}`), and none when
/// the value is gone or names no sink; for any other key, no change at all.
pub fn default_sink_update(key: Option<&str>, value: Option<&str>) -> (r: Option<Option<String>>)
    ensures
        !is_default_sink_key(key) ==> r is None,
        is_default_sink_key(key) ==> match value {
            None => r == Some(None::<String>),
            Some(v) => match json_name(v@) {
                Some(n) => r matches Some(Some(m)) && m@ == n,
                None => r == Some(None::<String>),
            },
        },
{
    match key {
        Some(k) => if !str_eq(k, "default.audio.sink") {
            return None;
        },
        None => return None,
    }
    match value {
        Some(v) => Some(json_name_field(v)),
        None => Some(None),
    }
}

} // verus!
