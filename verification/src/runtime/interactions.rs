//! Questions, directory requests and plans put to the user while a run
//! waits: which tool call asks what, and which pending request an answer
//! resolves. The host holds, for each pending request, the end of the
//! channel its answer is delivered on.

use vstd::prelude::*;

use crate::json::{Json, JsonView};
use crate::provider::replies::or_empty;
use crate::runtime::events::RuntimeEvent;
use crate::runtime::tools::ToolCall;
use crate::strmap::{find, StrMap};
use crate::text::{concat2, concat3, owned, str_eq};

verus! {

/// The kind of request a tool call puts to the user, if it is one.
pub open spec fn interaction_kind_of(name: Seq<char>) -> Option<Seq<char>> {
    if name == "request_directory"@ {
        Some("directory"@)
    } else if name == "ask_user"@ {
        Some("question"@)
    } else if name == "propose_plan"@ {
        Some("plan"@)
    } else {
        None
    }
}

pub fn interaction_kind(name: &str) -> (r: Option<&'static str>)
    ensures
        match interaction_kind_of(name@) {
            Some(k) => r matches Some(x) && x@ == k,
            None => r is None,
        },
{
    if str_eq(name, "request_directory") {
        Some("directory")
    } else if str_eq(name, "ask_user") {
        Some("question")
    } else if str_eq(name, "propose_plan") {
        Some("plan")
    } else {
        None
    }
}

/// The event announcing a request of `kind` made by `call`: a directory
/// request with its reason, path and whether it asks for writing; a
/// question with the call's arguments; a plan with its text.
pub open spec fn announces(e: RuntimeEvent, call: ToolCall, kind: Seq<char>) -> bool {
    let args = call.arguments@;
    if kind == "directory"@ {
        e matches RuntimeEvent::DirectoryRequested { tool_call_id, reason, path, writable } && tool_call_id@
            == call.id@ && reason@ == or_empty(args.str_field("reason"@)) && path@ == or_empty(
            args.str_field("path"@),
        ) && writable == (args.bool_field("writable"@) == Some(true))
    } else if kind == "question"@ {
        e matches RuntimeEvent::QuestionRequested { tool_call_id, arguments } && tool_call_id@ == call.id@
            && arguments@ == args
    } else {
        e matches RuntimeEvent::PlanProposed { tool_call_id, plan } && tool_call_id@ == call.id@ && plan@
            == or_empty(args.str_field("plan"@))
    }
}

fn str_arg(args: &Json, key: &str) -> (r: String)
    ensures
        r@ == or_empty(args@.str_field(key@)),
{
    match args.str_field(key) {
        Some(s) => owned(s),
        None => String::new(),
    }
}

/// The event that announces the request `call` makes.
pub fn interaction_event(call: &ToolCall, kind: &str) -> (e: RuntimeEvent)
    ensures
        announces(e, *call, kind@),
{
    if str_eq(kind, "directory") {
        let writable = match call.arguments.bool_field("writable") {
            Some(b) => b,
            None => false,
        };
        RuntimeEvent::DirectoryRequested {
            tool_call_id: call.id.clone(),
            reason: str_arg(&call.arguments, "reason"),
            path: str_arg(&call.arguments, "path"),
            writable,
        }
    } else if str_eq(kind, "question") {
        RuntimeEvent::QuestionRequested { tool_call_id: call.id.clone(), arguments: call.arguments.deep_clone() }
    } else {
        RuntimeEvent::PlanProposed { tool_call_id: call.id.clone(), plan: str_arg(&call.arguments, "plan") }
    }
}

/// The first pending request of `kind`, in id order.
pub open spec fn first_of_kind<S>(pending: Seq<(Seq<char>, (String, S))>, kind: Seq<char>) -> Option<Seq<char>>
    decreases pending.len(),
{
    if pending.len() == 0 {
        None
    } else if pending[0].1.0@ == kind {
        Some(pending[0].0)
    } else {
        first_of_kind(pending.drop_first(), kind)
    }
}

proof fn lemma_first_of_kind<S>(pending: Seq<(Seq<char>, (String, S))>, kind: Seq<char>)
    ensures
        first_of_kind(pending, kind) matches Some(k) ==> exists|j: int|
            0 <= j < pending.len() && #[trigger] pending[j].0 == k && pending[j].1.0@ == kind,
    decreases pending.len(),
{
    if pending.len() > 0 && pending[0].1.0@ != kind {
        let rest = pending.drop_first();
        lemma_first_of_kind(rest, kind);
        if let Some(k) = first_of_kind(rest, kind) {
            let j = choose|j: int| 0 <= j < rest.len() && #[trigger] rest[j].0 == k && rest[j].1.0@ == kind;
            assert(pending[j + 1] == rest[j]);
        }
    }
}

/// Why an answer resolves nothing: no id was given and nothing of its
/// kind is pending, the id is not pending, or it is pending as another
/// kind.
pub open spec fn resolve_error<S>(pending: Seq<(Seq<char>, (String, S))>, kind: Seq<char>, id: Option<Seq<char>>) -> Option<
    Seq<char>,
> {
    match id {
        None => match first_of_kind(pending, kind) {
            None => Some("no pending "@ + kind + " interaction"@),
            Some(_) => None,
        },
        Some(key) => match find(pending, key) {
            None => Some("interaction not found: "@ + key),
            Some(entry) => if entry.0@ != kind {
                Some("interaction "@ + key + " is not a "@ + kind + " request"@)
            } else {
                None
            },
        },
    }
}

/// An answer is delivered once: when the request named `key` is no longer
/// pending (as after it was resolved), answering it again is refused.
pub proof fn law_answer_is_delivered_once<S>(after: Seq<(Seq<char>, (String, S))>, kind: Seq<char>, key: Seq<char>)
    requires
        find(after, key) is None,
    ensures
        resolve_error(after, kind, Some(key)) == Some("interaction not found: "@ + key),
{
}

/// The requests waiting for an answer, by tool call id: each with its kind
/// and the channel end its answer goes to.
pub struct InteractionController<S> {
    pub pending: StrMap<(String, S)>,
}

impl<S> InteractionController<S> {
    pub fn new() -> (c: Self)
        ensures
            c.pending@.len() == 0,
    {
        InteractionController { pending: StrMap::new() }
    }

    /// Wait for an answer to request `id` of `kind`; one id waits once.
    pub fn begin(&mut self, id: &str, kind: &str, sender: S) -> (r: Result<(), String>)
        ensures
            find(old(self).pending@, id@) is Some ==> (r matches Err(e) && e@ == "interaction is already pending: "@
                + id@ && final(self).pending@ == old(self).pending@),
            find(old(self).pending@, id@) is None ==> r is Ok && (find(final(self).pending@, id@) matches Some(
                entry,
            ) && entry.0@ == kind@ && entry.1 == sender) && forall|k: Seq<char>|
                k != id@ ==> #[trigger] find(final(self).pending@, k) == find(old(self).pending@, k),
    {
        if self.pending.contains_key(id) {
            return Err(concat2("interaction is already pending: ", id));
        }
        self.pending.insert(owned(id), (owned(kind), sender));
        Ok(())
    }

    /// Resolve a pending request of `kind`: the one named `id`, or, with no
    /// id, the first of that kind. The request leaves the pending set and
    /// its id and channel end are returned, for the answer to be sent on.
    pub fn resolve(&mut self, kind: &str, id: Option<&str>) -> (r: Result<(String, S), String>)
        ensures
            ({
                let pending = old(self).pending@;
                let idv = match id {
                    Some(x) => Some(x@),
                    None => None,
                };
                match resolve_error(pending, kind@, idv) {
                    Some(e) => r matches Err(x) && x@ == e && final(self).pending@ == pending,
                    None => {
                        let key = match idv {
                            Some(x) => x,
                            None => first_of_kind(pending, kind@).unwrap(),
                        };
                        &&& r matches Ok(out) && out.0@ == key && (find(pending, key) matches Some(entry)
                            && out.1 == entry.1)
                        &&& find(final(self).pending@, key) is None
                        &&& forall|k: Seq<char>|
                            k != key ==> #[trigger] find(final(self).pending@, k) == find(pending, k)
                    },
                }
            }),
    {
        let key = match id {
            Some(x) => owned(x),
            None => {
                let mut i: usize = 0;
                let n = self.pending.len();
                let ghost pending = self.pending@;
                proof {
                    assert(pending.subrange(0, pending.len() as int) =~= pending);
                }
                let mut found: Option<String> = None;
                while i < n
                    invariant_except_break
                        found is None,
                    invariant
                        i <= n == pending.len(),
                        pending == self.pending@,
                        first_of_kind(pending, kind@) == first_of_kind(pending.subrange(i as int, n as int), kind@),
                    ensures
                        found matches Some(k) ==> first_of_kind(pending, kind@) == Some(k@),
                        found is None ==> first_of_kind(pending, kind@) is None,
                    decreases n - i,
                {
                    let ghost rest = pending.subrange(i as int, n as int);
                    assert(rest[0] == pending[i as int]);
                    let (k, entry) = self.pending.entry(i);
                    if str_eq(entry.0.as_str(), kind) {
                        found = Some(k.clone());
                        break;
                    }
                    proof {
                        assert(rest.drop_first() =~= pending.subrange(i + 1, n as int));
                    }
                    i = i + 1;
                }
                proof {
                    lemma_first_of_kind(pending, kind@);
                    if let Some(k) = first_of_kind(pending, kind@) {
                        let j = choose|j: int|
                            0 <= j < pending.len() && #[trigger] pending[j].0 == k && pending[j].1.0@ == kind@;
                        crate::strmap::lemma_find_at(pending, j);
                    }
                }
                match found {
                    Some(k) => k,
                    None => {
                        return Err(concat3("no pending ", kind, " interaction"));
                    },
                }
            },
        };
        let ghost before = self.pending@;
        let matches_kind = match self.pending.get(key.as_str()) {
            Some(entry) => str_eq(entry.0.as_str(), kind),
            None => {
                let mut m = owned("interaction not found: ");
                m.append(key.as_str());
                return Err(m);
            },
        };
        if !matches_kind {
            let mut m = owned("interaction ");
            m.append(key.as_str());
            m.append(" is not a ");
            m.append(kind);
            m.append(" request");
            return Err(m);
        }
        match self.pending.remove(key.as_str()) {
            Some(entry) => Ok((key, entry.1)),
            None => Err(owned("interaction not found")),
        }
    }

    /// Stop waiting for request `id`.
    pub fn cancel(&mut self, id: &str)
        ensures
            find(final(self).pending@, id@) is None,
            forall|k: Seq<char>| k != id@ ==> #[trigger] find(final(self).pending@, k) == find(old(self).pending@, k),
    {
        self.pending.remove(id);
    }
}

} // verus!
