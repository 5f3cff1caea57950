//! Structured log records: one JSON object per line, read through serde_json.

use vstd::prelude::*;

verus! {

#[verifier::external_type_specification]
#[verifier::external_body]
pub struct ExValue(serde_json::Value);

/// Whether the bytes hold one JSON document (surrounding white space
/// allowed, nesting no deeper than serde_json's limit), as serde_json
/// decides it.
pub uninterp spec fn is_json(bytes: Seq<u8>) -> bool;

/// The members of the JSON object the bytes hold, in the order serde_json's
/// map yields them: each key with its text when the value is a JSON string.
/// Empty when the document is not an object.
pub uninterp spec fn json_member_texts(bytes: Seq<u8>) -> Seq<(Seq<char>, Option<Seq<char>>)>;

/// One member of a log line's JSON object: its key, its text when the value
/// is a JSON string, and the value itself.
pub struct Member {
    pub key: String,
    pub text: Option<String>,
    pub value: serde_json::Value,
}

/// One structured log record. `metadata` holds every member of the line's
/// object other than `timestamp`, `level` and `message`, in the order the
/// object's map yields them.
pub struct LogEntry {
    pub timestamp: String,
    pub level: String,
    pub message: String,
    pub metadata: Vec<(String, serde_json::Value)>,
}

pub open spec fn opt_view(o: Option<String>) -> Option<Seq<char>> {
    match o {
        Some(s) => Some(s@),
        None => None,
    }
}

/// The (key, text) of each member.
pub open spec fn member_texts(ms: Seq<Member>) -> Seq<(Seq<char>, Option<Seq<char>>)> {
    ms.map_values(|m: Member| (m.key@, opt_view(m.text)))
}

/// Relies on `serde_json::from_slice::<Value>`, the iteration of an object's
/// map and `Value::as_str`: parsing succeeds exactly on one JSON document,
/// and its members (none unless it is an object) depend on the bytes alone.
#[verifier::external_body]
pub(crate) fn parse_members(bytes: &[u8]) -> (r: Option<Vec<Member>>)
    ensures
        r.is_some() == is_json(bytes@),
        match r {
            Some(ms) => member_texts(ms@) == json_member_texts(bytes@),
            None => true,
        },
{
    match serde_json::from_slice::<serde_json::Value>(bytes) {
        Ok(serde_json::Value::Object(m)) => Some(
            m.into_iter()
                .map(|(key, value)| Member { text: value.as_str().map(|t| t.to_string()), key, value })
                .collect(),
        ),
        Ok(_) => Some(Vec::new()),
        Err(_) => None,
    }
}

/// The first member named `key`, if any: `Some(text)`, where `text` is the
/// member's text when its value is a JSON string.
pub open spec fn lookup(ts: Seq<(Seq<char>, Option<Seq<char>>)>, key: Seq<char>) -> Option<
    Option<Seq<char>>,
>
    decreases ts.len(),
{
    if ts.len() == 0 {
        None
    } else {
        match lookup(ts.drop_last(), key) {
            Some(t) => Some(t),
            None => if ts.last().0 == key {
                Some(ts.last().1)
            } else {
                None
            },
        }
    }
}

/// The text of the first member named `key` when its value is a JSON string;
/// `default` when there is no such member or its value is not a string.
pub open spec fn text_or(
    ts: Seq<(Seq<char>, Option<Seq<char>>)>,
    key: Seq<char>,
    default: Seq<char>,
) -> Seq<char> {
    match lookup(ts, key) {
        Some(Some(t)) => t,
        _ => default,
    }
}

pub open spec fn is_reserved(key: Seq<char>) -> bool {
    key == "timestamp"@ || key == "level"@ || key == "message"@
}

/// The keys of the members that go to `metadata`, in order.
pub open spec fn extra_keys(ts: Seq<(Seq<char>, Option<Seq<char>>)>) -> Seq<Seq<char>>
    decreases ts.len(),
{
    if ts.len() == 0 {
        Seq::empty()
    } else {
        let rest = extra_keys(ts.drop_last());
        if is_reserved(ts.last().0) {
            rest
        } else {
            rest.push(ts.last().0)
        }
    }
}

/// The members that go to `metadata`, as (key, value) pairs, in order.
pub open spec fn extra_members(ms: Seq<Member>) -> Seq<(Seq<char>, serde_json::Value)>
    decreases ms.len(),
{
    if ms.len() == 0 {
        Seq::empty()
    } else {
        let rest = extra_members(ms.drop_last());
        if is_reserved(ms.last().key@) {
            rest
        } else {
            rest.push((ms.last().key@, ms.last().value))
        }
    }
}

pub open spec fn metadata_view(md: Seq<(String, serde_json::Value)>) -> Seq<
    (Seq<char>, serde_json::Value),
> {
    md.map_values(|p: (String, serde_json::Value)| (p.0@, p.1))
}

pub open spec fn metadata_keys(e: LogEntry) -> Seq<Seq<char>> {
    e.metadata@.map_values(|p: (String, serde_json::Value)| p.0@)
}

pub open spec fn found_view(o: Option<Option<String>>) -> Option<Option<Seq<char>>> {
    match o {
        Some(t) => Some(opt_view(t)),
        None => None,
    }
}

/// The text fields and metadata keys of `e` are those of a record built from
/// members with the (key, text) pairs `ts`.
pub open spec fn record_of(e: LogEntry, ts: Seq<(Seq<char>, Option<Seq<char>>)>) -> bool {
    &&& e.timestamp@ == text_or(ts, "timestamp"@, ""@)
    &&& e.level@ == text_or(ts, "level"@, "INFO"@)
    &&& e.message@ == text_or(ts, "message"@, ""@)
    &&& metadata_keys(e) == extra_keys(ts)
}

/// `e` is the record built from the members `ms` (see `entry_from_members`).
pub open spec fn built_from(e: LogEntry, ms: Seq<Member>) -> bool {
    &&& record_of(e, member_texts(ms))
    &&& metadata_view(e.metadata@) == extra_members(ms)
}

/// `e` is the record of a log line: built from the members that serde_json
/// reads from the line.
pub open spec fn parsed_from(e: LogEntry, line: Seq<u8>) -> bool {
    &&& record_of(e, json_member_texts(line))
    &&& exists|ms: Seq<Member>| #[trigger] built_from(e, ms) && member_texts(ms) == json_member_texts(line)
}

/// Two records agree on their text fields and metadata keys.
pub open spec fn same_fields(a: LogEntry, b: LogEntry) -> bool {
    &&& a.timestamp@ == b.timestamp@
    &&& a.level@ == b.level@
    &&& a.message@ == b.message@
    &&& metadata_keys(a) == metadata_keys(b)
}

/// Records built from the same member texts agree on their text fields and
/// metadata keys.
pub proof fn lemma_record_determined(a: LogEntry, b: LogEntry, ts: Seq<(Seq<char>, Option<Seq<char>>)>)
    requires
        record_of(a, ts),
        record_of(b, ts),
    ensures
        same_fields(a, b),
{
}

fn str_eq(a: &String, b: &str) -> (r: bool)
    ensures
        r == (a@ == b@),
{
    let b = String::from_str(b);
    *a == b
}

/// Builds a log record from the members of a line's JSON object: `timestamp`
/// and `message` default to empty text, `level` to `INFO`, and every other
/// member goes to `metadata` in order.
pub fn entry_from_members(members: Vec<Member>) -> (r: LogEntry)
    ensures
        built_from(r, members@),
{
    let ghost all = members@;
    let mut members = members;
    let mut timestamp: Option<Option<String>> = None;
    let mut level: Option<Option<String>> = None;
    let mut message: Option<Option<String>> = None;
    let mut metadata: Vec<(String, serde_json::Value)> = Vec::new();
    let ghost mut done: Seq<Member> = Seq::empty();
    while members.len() > 0
        invariant
            done + members@ == all,
            found_view(timestamp) == lookup(member_texts(done), "timestamp"@),
            found_view(level) == lookup(member_texts(done), "level"@),
            found_view(message) == lookup(member_texts(done), "message"@),
            metadata_view(metadata@) == extra_members(done),
            metadata@.map_values(|p: (String, serde_json::Value)| p.0@) == extra_keys(
                member_texts(done),
            ),
        decreases members@.len(),
    {
        let m = members.remove(0);
        let is_ts = str_eq(&m.key, "timestamp");
        let is_level = str_eq(&m.key, "level");
        let is_msg = str_eq(&m.key, "message");
        let ghost old_done = done;
        proof {
            reveal_strlit("timestamp");
            reveal_strlit("level");
            reveal_strlit("message");
            assert("timestamp"@.len() == 9 && "level"@.len() == 5 && "message"@.len() == 7);
            done = done.push(m);
            assert(done.drop_last() == old_done);
            assert(done + members@ == all);
            assert(member_texts(done).drop_last() =~= member_texts(old_done));
            assert(member_texts(done).last() == (m.key@, opt_view(m.text)));
        }
        if is_ts {
            if timestamp.is_none() {
                timestamp = Some(m.text);
            }
        } else if is_level {
            if level.is_none() {
                level = Some(m.text);
            }
        } else if is_msg {
            if message.is_none() {
                message = Some(m.text);
            }
        } else {
            metadata.push((m.key, m.value));
            proof {
                assert(metadata_view(metadata@) =~= extra_members(done));
                assert(metadata@.map_values(|p: (String, serde_json::Value)| p.0@) =~= extra_keys(
                    member_texts(done),
                ));
            }
        }
    }
    proof {
        assert(done == all);
    }
    LogEntry {
        timestamp: text_of(timestamp, ""),
        level: text_of(level, "INFO"),
        message: text_of(message, ""),
        metadata,
    }
}

fn text_of(o: Option<Option<String>>, default: &str) -> (r: String)
    ensures
        r@ == match found_view(o) {
            Some(Some(t)) => t,
            _ => default@,
        },
{
    match o {
        Some(Some(s)) => s,
        _ => String::from_str(default),
    }
}

/// Parses one log line. A line that is not one JSON document gives `None`;
/// any other line gives the record that `entry_from_members` builds from the
/// members of its object (none when the document is not an object).
pub fn parse_log_line(line: &[u8]) -> (r: Option<LogEntry>)
    ensures
        r.is_some() == is_json(line@),
        match r {
            Some(e) => parsed_from(e, line@),
            None => true,
        },
{
    match parse_members(line) {
        None => None,
        Some(members) => {
            let ghost ms = members@;
            let e = entry_from_members(members);
            let r = Some(e);
            assert(built_from(r->0, ms));
            assert(record_of(r->0, json_member_texts(line@)));
            r
        },
    }
}

} // verus!
