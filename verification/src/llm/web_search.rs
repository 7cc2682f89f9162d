//! Detection of web-search server tools in a request.
//!
//! A tool is told by its `type`. The `name` of a tool tells nothing: any function tool may be
//! called `web_search`.

use vstd::prelude::*;

use crate::json;
use crate::json::{get_str, get_u64, Json, JsonView};
use crate::text::str_eq;

verus! {

/// The tool types that ask for a web search.
pub open spec fn is_web_search_type(typ: Seq<char>) -> bool {
    ||| typ == "web_search_20250305"@
    ||| typ == "web_search_20260209"@
    ||| typ == "web_search_20260318"@
    ||| typ == "web_search"@
    ||| typ == "web_search_preview"@
}

/// Whether a tool of a request asks for a web search.
pub open spec fn is_server_tool(tool: JsonView) -> bool {
    match json::text_of(tool.member("type"@)) {
        Some(typ) => is_web_search_type(typ),
        None => false,
    }
}

/// Whether a tool of a request asks for a web search.
pub fn is_web_search_server_tool(tool: &Json) -> (res: bool)
    ensures
        res == is_server_tool(tool@),
{
    match get_str(tool.get("type")) {
        Some(typ) => str_eq(typ, "web_search_20250305") || str_eq(typ, "web_search_20260209")
            || str_eq(typ, "web_search_20260318") || str_eq(typ, "web_search") || str_eq(
            typ,
            "web_search_preview",
        ),
        None => false,
    }
}

/// A web search that a request asks for, with the options of its tool.
pub struct WebSearchTrigger {
    /// The name that the sidecar knows the tool by.
    pub name: &'static str,
    pub max_uses: Option<u64>,
    pub allowed_domains: Option<Vec<String>>,
    pub blocked_domains: Option<Vec<String>>,
    /// Carried through as it is.
    pub user_location: Option<Json>,
}

/// What a trigger says.
pub struct WebSearchTriggerView {
    pub name: Seq<char>,
    pub max_uses: Option<u64>,
    pub allowed_domains: Option<Seq<Seq<char>>>,
    pub blocked_domains: Option<Seq<Seq<char>>>,
    pub user_location: Option<JsonView>,
}

/// What a list of texts says.
pub open spec fn texts_view(texts: Seq<String>) -> Seq<Seq<char>> {
    texts.map_values(|t: String| t@)
}

/// What an optional list of texts says.
pub open spec fn opt_texts_view(texts: Option<Vec<String>>) -> Option<Seq<Seq<char>>> {
    match texts {
        Some(list) => Some(texts_view(list@)),
        None => None,
    }
}

impl View for WebSearchTrigger {
    type V = WebSearchTriggerView;

    open spec fn view(&self) -> WebSearchTriggerView {
        WebSearchTriggerView {
            name: self.name@,
            max_uses: self.max_uses,
            allowed_domains: opt_texts_view(self.allowed_domains),
            blocked_domains: opt_texts_view(self.blocked_domains),
            user_location: match self.user_location {
                Some(location) => Some(location@),
                None => None,
            },
        }
    }
}

/// The texts in a list of documents, in turn; other documents are passed over.
pub open spec fn texts_in(items: Seq<JsonView>) -> Seq<Seq<char>>
    decreases items.len(),
{
    if items.len() == 0 {
        Seq::empty()
    } else {
        match items.last().text() {
            Some(text) => texts_in(items.drop_last()).push(text),
            None => texts_in(items.drop_last()),
        }
    }
}

/// The texts of an optional list of documents.
pub open spec fn opt_texts_in(json: Option<JsonView>) -> Option<Seq<Seq<char>>> {
    match json::items_of(json) {
        Some(items) => Some(texts_in(items)),
        None => None,
    }
}

/// The trigger of a tool that asks for a web search.
pub open spec fn trigger_of(tool: JsonView) -> WebSearchTriggerView {
    WebSearchTriggerView {
        name: "web_search"@,
        max_uses: json::unsigned_of(tool.member("max_uses"@)),
        allowed_domains: opt_texts_in(tool.member("allowed_domains"@)),
        blocked_domains: opt_texts_in(tool.member("blocked_domains"@)),
        user_location: tool.member("user_location"@),
    }
}

fn texts(json: Option<&Json>) -> (res: Option<Vec<String>>)
    ensures
        opt_texts_view(res) == opt_texts_in(json::opt_view(json)),
{
    let found: &Json = match json {
        Some(found) => found,
        None => return None,
    };
    let items: &Vec<Json> = match found.as_array() {
        Some(items) => items,
        None => return None,
    };
    proof {
        json::lemma_items_view(items@);
    }
    let ghost all = json::items_view(items@);
    let mut out: Vec<String> = Vec::new();
    assert(texts_view(out@) =~= Seq::empty());
    for i in 0..items.len()
        invariant
            all.len() == items@.len(),
            forall|j: int| 0 <= j < items@.len() ==> #[trigger] all[j] == items@[j]@,
            texts_view(out@) == texts_in(all.take(i as int)),
    {
        assert(all.take(i + 1).drop_last() == all.take(i as int));
        let ghost before = texts_view(out@);
        if let Some(text) = items[i].as_str() {
            out.push(text.to_owned());
            assert(texts_view(out@) =~= before.push(text@));
        }
    }
    assert(all.take(all.len() as int) == all);
    Some(out)
}

impl WebSearchTrigger {
    /// The trigger of a tool; none where the tool does not ask for a web search.
    pub fn from_tool(tool: &Json) -> (res: Option<WebSearchTrigger>)
        ensures
            match res {
                Some(trigger) => is_server_tool(tool@) && trigger@ == trigger_of(tool@),
                None => !is_server_tool(tool@),
            },
    {
        if !is_web_search_server_tool(tool) {
            return None;
        }
        let user_location = match tool.get("user_location") {
            Some(location) => Some(location.clone()),
            None => None,
        };
        Some(
            WebSearchTrigger {
                name: "web_search",
                max_uses: get_u64(tool.get("max_uses")),
                allowed_domains: texts(tool.get("allowed_domains")),
                blocked_domains: texts(tool.get("blocked_domains")),
                user_location,
            },
        )
    }
}

/// The triggers in the tools of a request, in turn.
pub open spec fn triggers_in(tools: Seq<JsonView>) -> Seq<WebSearchTriggerView>
    decreases tools.len(),
{
    if tools.len() == 0 {
        Seq::empty()
    } else if is_server_tool(tools.last()) {
        triggers_in(tools.drop_last()).push(trigger_of(tools.last()))
    } else {
        triggers_in(tools.drop_last())
    }
}

/// What a list of triggers says.
pub open spec fn triggers_view(triggers: Seq<WebSearchTrigger>) -> Seq<WebSearchTriggerView> {
    triggers.map_values(|t: WebSearchTrigger| t@)
}

/// Finds the web searches that the tools of a request ask for, in the order of the request.
pub fn detect(tools: &[Json]) -> (res: Vec<WebSearchTrigger>)
    ensures
        triggers_view(res@) == triggers_in(json::items_view(tools@)),
{
    let mut out: Vec<WebSearchTrigger> = Vec::new();
    proof {
        json::lemma_items_view(tools@);
    }
    let ghost all = json::items_view(tools@);
    assert(triggers_view(out@) =~= Seq::empty());
    for i in 0..tools.len()
        invariant
            all.len() == tools@.len(),
            forall|j: int| 0 <= j < tools@.len() ==> #[trigger] all[j] == tools@[j]@,
            triggers_view(out@) == triggers_in(all.take(i as int)),
    {
        assert(all.take(i + 1).drop_last() == all.take(i as int));
        let ghost before = triggers_view(out@);
        if let Some(trigger) = WebSearchTrigger::from_tool(&tools[i]) {
            out.push(trigger);
            assert(triggers_view(out@) =~= before.push(trigger@));
        }
    }
    assert(all.take(all.len() as int) == all);
    out
}

/// The number of tools that ask for a web search.
pub open spec fn count_server_tools(tools: Seq<JsonView>) -> nat
    decreases tools.len(),
{
    if tools.len() == 0 {
        0
    } else {
        count_server_tools(tools.drop_last()) + if is_server_tool(tools.last()) {
            1nat
        } else {
            0
        }
    }
}

/// Each tool that asks for a web search gives one trigger, and no other tool gives one; every
/// trigger goes by the name that the sidecar knows.
pub proof fn law_one_trigger_per_server_tool(tools: Seq<JsonView>)
    ensures
        triggers_in(tools).len() == count_server_tools(tools),
        forall|k: int|
            0 <= k < triggers_in(tools).len() ==> (#[trigger] triggers_in(tools)[k]).name
                == "web_search"@,
    decreases tools.len(),
{
    if tools.len() > 0 {
        law_one_trigger_per_server_tool(tools.drop_last());
    }
}

/// Triggers come in the order of the request: the triggers of two lists of tools in a row are
/// those of the first, then those of the second.
pub proof fn law_triggers_keep_request_order(first: Seq<JsonView>, second: Seq<JsonView>)
    ensures
        triggers_in(first + second) == triggers_in(first) + triggers_in(second),
    decreases second.len(),
{
    if second.len() == 0 {
        assert(first + second == first);
        assert(triggers_in(first) + triggers_in(second) =~= triggers_in(first));
    } else {
        assert((first + second).drop_last() == first + second.drop_last());
        law_triggers_keep_request_order(first, second.drop_last());
        assert(triggers_in(first + second) =~= triggers_in(first) + triggers_in(second));
    }
}

/// Detection looks at the `type` alone: tools of one type are both found or both passed over,
/// whatever their names are.
pub proof fn law_detection_is_by_type(one: JsonView, other: JsonView)
    requires
        one.member("type"@) == other.member("type"@),
    ensures
        is_server_tool(one) == is_server_tool(other),
{
}

} // verus!
