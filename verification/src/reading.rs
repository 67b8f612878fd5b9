//! How texts and JSON values are read in statements about the adapter.

use crate::json;
use crate::json::JsonView;
use vstd::prelude::*;

verus! {

/// A text stands somewhere in another one.
#[verifier::opaque]
pub open spec fn holds(whole: Seq<char>, part: Seq<char>) -> bool {
    exists|i: int|
        0 <= i && i + part.len() <= whole.len() && #[trigger] whole.subrange(i, i + part.len())
            == part
}

pub broadcast proof fn lemma_holds_itself(part: Seq<char>)
    ensures
        #[trigger] holds(part, part),
{
    reveal(holds);
    assert(part.subrange(0, 0int + part.len()) =~= part);
}

pub broadcast proof fn lemma_holds_before(a: Seq<char>, b: Seq<char>, part: Seq<char>)
    requires
        holds(a, part),
    ensures
        #[trigger] holds(a + b, part),
{
    reveal(holds);
    let i = choose|i: int|
        0 <= i && i + part.len() <= a.len() && #[trigger] a.subrange(i, i + part.len()) == part;
    assert((a + b).subrange(i, i + part.len()) =~= a.subrange(i, i + part.len()));
}

pub broadcast proof fn lemma_holds_behind(a: Seq<char>, b: Seq<char>, part: Seq<char>)
    requires
        holds(b, part),
    ensures
        #[trigger] holds(a + b, part),
{
    reveal(holds);
    let i = choose|i: int|
        0 <= i && i + part.len() <= b.len() && #[trigger] b.subrange(i, i + part.len()) == part;
    let k: int = a.len() + i;
    assert((a + b).subrange(k, k + part.len()) =~= b.subrange(i, i + part.len()));
}

pub broadcast group group_holds {
    lemma_holds_itself,
    lemma_holds_before,
    lemma_holds_behind,
}

/// The names of members are told apart.
pub proof fn lemma_names()
    ensures
        "seq"@.len() == 3,
        "type"@.len() == 4 && "type"@[0] == 't' && "type"@[1] == 'y',
        "request_seq"@.len() == 11 && "request_seq"@[0] == 'r',
        "success"@.len() == 7 && "success"@[0] == 's',
        "command"@.len() == 7 && "command"@[0] == 'c',
        "body"@.len() == 4 && "body"@[0] == 'b',
        "message"@.len() == 7 && "message"@[0] == 'm',
        "event"@.len() == 5 && "event"@[0] == 'e',
        "id"@.len() == 2 && "id"@[0] == 'i',
        "name"@.len() == 4 && "name"@[0] == 'n',
        "line"@.len() == 4 && "line"@[0] == 'l',
        "column"@.len() == 6 && "column"@[0] == 'c',
        "source"@.len() == 6 && "source"@[0] == 's' && "source"@[1] == 'o',
        "path"@.len() == 4 && "path"@[0] == 'p',
        "stackFrames"@.len() == 11 && "stackFrames"@[0] == 's',
        "totalFrames"@.len() == 11 && "totalFrames"@[0] == 't',
        "scopes"@.len() == 6 && "scopes"@[0] == 's' && "scopes"@[1] == 'c',
        "variablesReference"@.len() == 18,
        "expensive"@.len() == 9 && "expensive"@[0] == 'e',
        "result"@.len() == 6 && "result"@[0] == 'r' && "result"@[2] == 's',
        "value"@.len() == 5 && "value"@[0] == 'v',
        "variables"@.len() == 9 && "variables"@[0] == 'v',
        "threads"@.len() == 7 && "threads"@[0] == 't' && "threads"@[1] == 'h',
        "threadId"@.len() == 8 && "threadId"@[0] == 't' && "threadId"@[1] == 'h',
        "allThreadsContinued"@.len() == 19,
        "allThreadsStopped"@.len() == 17,
        "reason"@.len() == 6 && "reason"@[0] == 'r' && "reason"@[2] == 'a',
        "exitCode"@.len() == 8 && "exitCode"@[0] == 'e',
        "category"@.len() == 8 && "category"@[0] == 'c',
        "output"@.len() == 6 && "output"@[0] == 'o',
        "breakpoints"@.len() == 11 && "breakpoints"@[0] == 'b',
        "verified"@.len() == 8 && "verified"@[0] == 'v',
        "Items"@.len() == 5 && "Items"@[0] == 'I',
        "Id"@.len() == 2 && "Id"@[0] == 'I',
        "User"@.len() == 4 && "User"@[0] == 'U',
        "Type"@.len() == 4 && "Type"@[0] == 'T',
        "Seance"@.len() == 6 && "Seance"@[0] == 'S',
        "schemaVersion"@.len() == 13,
        "tsMs"@.len() == 4 && "tsMs"@[0] == 't' && "tsMs"@[1] == 's',
        "targetId"@.len() == 8 && "targetId"@[0] == 't' && "targetId"@[1] == 'a',
        "traceId"@.len() == 7 && "traceId"@[0] == 't' && "traceId"@[1] == 'r',
        "pollId"@.len() == 6 && "pollId"@[0] == 'p',
        "mode"@.len() == 4 && "mode"@[0] == 'm',
        "events"@.len() == 6 && "events"@[0] == 'e',
        "httpMs"@.len() == 6 && "httpMs"@[0] == 'h',
        "parseMs"@.len() == 7 && "parseMs"@[0] == 'p',
        "filter"@.len() == 6 && "filter"@[0] == 'f',
        "label"@.len() == 5 && "label"@[0] == 'l',
        "default"@.len() == 7 && "default"@[0] == 'd',
{
    reveal_strlit("seq");
    reveal_strlit("type");
    reveal_strlit("request_seq");
    reveal_strlit("success");
    reveal_strlit("command");
    reveal_strlit("body");
    reveal_strlit("message");
    reveal_strlit("event");
    reveal_strlit("id");
    reveal_strlit("name");
    reveal_strlit("line");
    reveal_strlit("column");
    reveal_strlit("source");
    reveal_strlit("path");
    reveal_strlit("stackFrames");
    reveal_strlit("totalFrames");
    reveal_strlit("scopes");
    reveal_strlit("variablesReference");
    reveal_strlit("expensive");
    reveal_strlit("result");
    reveal_strlit("value");
    reveal_strlit("variables");
    reveal_strlit("threads");
    reveal_strlit("threadId");
    reveal_strlit("allThreadsContinued");
    reveal_strlit("allThreadsStopped");
    reveal_strlit("reason");
    reveal_strlit("exitCode");
    reveal_strlit("category");
    reveal_strlit("output");
    reveal_strlit("breakpoints");
    reveal_strlit("verified");
    reveal_strlit("Items");
    reveal_strlit("Id");
    reveal_strlit("User");
    reveal_strlit("Type");
    reveal_strlit("Seance");
    reveal_strlit("schemaVersion");
    reveal_strlit("tsMs");
    reveal_strlit("targetId");
    reveal_strlit("traceId");
    reveal_strlit("pollId");
    reveal_strlit("mode");
    reveal_strlit("events");
    reveal_strlit("httpMs");
    reveal_strlit("parseMs");
    reveal_strlit("filter");
    reveal_strlit("label");
    reveal_strlit("default");
}

/// The member at a place of an object, where none before it has its name.
pub proof fn lemma_field(members: Seq<(Seq<char>, JsonView)>, k: int)
    requires
        0 <= k < members.len(),
        k <= 8,
        k > 0 ==> members[0].0 != members[k].0,
        k > 1 ==> members[1].0 != members[k].0,
        k > 2 ==> members[2].0 != members[k].0,
        k > 3 ==> members[3].0 != members[k].0,
        k > 4 ==> members[4].0 != members[k].0,
        k > 5 ==> members[5].0 != members[k].0,
        k > 6 ==> members[6].0 != members[k].0,
        k > 7 ==> members[7].0 != members[k].0,
    ensures
        json::field(JsonView::Object(members), members[k].0) == members[k].1,
{
    json::lemma_member_at(members, members[k].0, k);
}

} // verus!
