//! What the detection of web searches promises.

use vstd::prelude::*;

use crate::json::JsonView;
use crate::llm::web_search;
use crate::llm::web_search::WebSearchTrigger;

verus! {

/// A list of texts as a request writes it.
pub open spec fn written(texts: Seq<Seq<char>>) -> JsonView {
    JsonView::Array(texts.map_values(|t: Seq<char>| JsonView::Text(t)))
}

proof fn lemma_written(texts: Seq<Seq<char>>)
    ensures
        web_search::texts_in(written(texts)->Array_0) == texts,
    decreases texts.len(),
{
    let items = written(texts)->Array_0;
    if texts.len() > 0 {
        lemma_written(texts.drop_last());
        assert(items.drop_last() =~= written(texts.drop_last())->Array_0);
        assert(items.last() == JsonView::Text(texts.last()));
        assert(texts.drop_last().push(texts.last()) =~= texts);
    }
}

proof fn lemma_texts_in_parts(first: Seq<JsonView>, second: Seq<JsonView>)
    ensures
        web_search::texts_in(first + second) == web_search::texts_in(first) + web_search::texts_in(
            second,
        ),
    decreases second.len(),
{
    if second.len() == 0 {
        assert(first + second =~= first);
        assert(web_search::texts_in(first) + web_search::texts_in(second) =~= web_search::texts_in(
            first,
        ));
    } else {
        assert((first + second).drop_last() =~= first + second.drop_last());
        lemma_texts_in_parts(first, second.drop_last());
        assert(web_search::texts_in(first + second) =~= web_search::texts_in(first)
            + web_search::texts_in(second));
    }
}

/// The domains that a client allows or blocks are taken over as the client lists them, whatever
/// else its tool says. Where there is no list, the trigger has none.
pub proof fn law_domains_are_taken_over(tool: JsonView, texts: Seq<Seq<char>>)
    ensures
        tool.member("blocked_domains"@) == Some(written(texts)) ==> web_search::trigger_of(
            tool,
        ).blocked_domains == Some(texts),
        tool.member("allowed_domains"@) == Some(written(texts)) ==> web_search::trigger_of(
            tool,
        ).allowed_domains == Some(texts),
        web_search::trigger_of(tool).blocked_domains is None <==> !(tool.member(
            "blocked_domains"@,
        ) is Some && tool.member("blocked_domains"@)->0 is Array),
        web_search::trigger_of(tool).allowed_domains is None <==> !(tool.member(
            "allowed_domains"@,
        ) is Some && tool.member("allowed_domains"@)->0 is Array),
{
    lemma_written(texts);
}

/// The options of a trigger come each from the member of its name and from nothing else.
pub proof fn law_options_do_not_interfere(one: JsonView, other: JsonView)
    ensures
        one.member("blocked_domains"@) == other.member("blocked_domains"@)
            ==> web_search::trigger_of(one).blocked_domains == web_search::trigger_of(
            other,
        ).blocked_domains,
        one.member("allowed_domains"@) == other.member("allowed_domains"@)
            ==> web_search::trigger_of(one).allowed_domains == web_search::trigger_of(
            other,
        ).allowed_domains,
        one.member("max_uses"@) == other.member("max_uses"@) ==> web_search::trigger_of(
            one,
        ).max_uses == web_search::trigger_of(other).max_uses,
        one.member("user_location"@) == other.member("user_location"@) ==> web_search::trigger_of(
            one,
        ).user_location == web_search::trigger_of(other).user_location,
        web_search::trigger_of(one).name == web_search::trigger_of(other).name,
{
}

/// What is no text in a list of domains is passed over, and leaves the others in their order.
pub proof fn law_only_texts_are_domains(
    one: JsonView,
    other: JsonView,
    items: Seq<JsonView>,
    at: int,
    odd: JsonView,
)
    requires
        0 <= at <= items.len(),
        !(odd is Text),
    ensures
        one.member("blocked_domains"@) == Some(JsonView::Array(items)) && other.member(
            "blocked_domains"@,
        ) == Some(JsonView::Array(items.insert(at, odd))) ==> web_search::trigger_of(
            one,
        ).blocked_domains == web_search::trigger_of(other).blocked_domains,
        one.member("allowed_domains"@) == Some(JsonView::Array(items)) && other.member(
            "allowed_domains"@,
        ) == Some(JsonView::Array(items.insert(at, odd))) ==> web_search::trigger_of(
            one,
        ).allowed_domains == web_search::trigger_of(other).allowed_domains,
{
    let first = items.take(at);
    let second = items.skip(at);
    assert(items =~= first + second);
    assert(items.insert(at, odd) =~= first.push(odd) + second);
    lemma_texts_in_parts(first, second);
    lemma_texts_in_parts(first.push(odd), second);
    assert(first.push(odd).drop_last() =~= first);
}

/// The other options of a trigger are what the tool says: a count of uses where it is a whole
/// number, and the location whatever it is.
pub proof fn law_other_options_are_taken_over(tool: JsonView, n: u64)
    ensures
        tool.member("max_uses"@) == Some(JsonView::Unsigned(n)) ==> web_search::trigger_of(
            tool,
        ).max_uses == Some(n),
        tool.member("max_uses"@) is None || !(tool.member("max_uses"@)->0 is Unsigned)
            ==> web_search::trigger_of(tool).max_uses is None,
        web_search::trigger_of(tool).user_location == tool.member("user_location"@),
        web_search::trigger_of(tool).name == "web_search"@,
{
}

/// A tool asks for a web search exactly where its `type` is one of five texts.
pub proof fn law_types_of_web_search(tool: JsonView)
    ensures
        web_search::is_server_tool(tool) <==> {
            let typ = tool.member("type"@);
            ||| typ == Some(JsonView::Text("web_search_20250305"@))
            ||| typ == Some(JsonView::Text("web_search_20260209"@))
            ||| typ == Some(JsonView::Text("web_search_20260318"@))
            ||| typ == Some(JsonView::Text("web_search"@))
            ||| typ == Some(JsonView::Text("web_search_preview"@))
        },
{
}

/// Each tool that asks for a web search gives its own trigger, at the place that the tools before
/// it leave for it.
pub proof fn law_a_trigger_is_that_of_its_tool(tools: Seq<JsonView>, i: int)
    requires
        0 <= i < tools.len(),
        web_search::is_server_tool(tools[i]),
    ensures
        ({
            let place = web_search::count_server_tools(tools.take(i)) as int;
            &&& 0 <= place < web_search::triggers_in(tools).len()
            &&& web_search::triggers_in(tools)[place] == web_search::trigger_of(tools[i])
        }),
    decreases tools.len(),
{
    let shorter = tools.drop_last();
    web_search::law_one_trigger_per_server_tool(shorter);
    if i == tools.len() - 1 {
        assert(tools.take(i) == shorter);
    } else {
        law_a_trigger_is_that_of_its_tool(shorter, i);
        assert(shorter.take(i) == tools.take(i));
    }
}

/// The number of triggers before a place counts exactly the tools of the five types.
pub proof fn law_server_tools_are_counted(tools: Seq<JsonView>, tool: JsonView)
    ensures
        web_search::count_server_tools(Seq::<JsonView>::empty()) == 0,
        web_search::count_server_tools(tools.push(tool)) == web_search::count_server_tools(tools)
            + if web_search::is_server_tool(tool) {
            1int
        } else {
            0
        },
        web_search::triggers_in(tools).len() == web_search::count_server_tools(tools),
{
    assert(tools.push(tool).drop_last() =~= tools);
    web_search::law_one_trigger_per_server_tool(tools);
}

/// A trigger says what its fields hold.
pub proof fn law_a_trigger_says_what_it_holds(trigger: WebSearchTrigger)
    ensures
        trigger@.name == trigger.name@,
        trigger@.max_uses == trigger.max_uses,
        trigger.allowed_domains is Some <==> trigger@.allowed_domains is Some,
        trigger.blocked_domains is Some <==> trigger@.blocked_domains is Some,
        trigger.user_location is Some <==> trigger@.user_location is Some,
        trigger.allowed_domains is Some ==> says(
            trigger.allowed_domains->0@,
            trigger@.allowed_domains->0,
        ),
        trigger.blocked_domains is Some ==> says(
            trigger.blocked_domains->0@,
            trigger@.blocked_domains->0,
        ),
        trigger.user_location is Some ==> trigger@.user_location->0 == trigger.user_location->0@,
{
}

/// Whether a list of texts says, one by one, what the other list is.
pub open spec fn says(texts: Seq<String>, said: Seq<Seq<char>>) -> bool {
    &&& texts.len() == said.len()
    &&& forall|i: int| 0 <= i < texts.len() ==> #[trigger] said[i] == texts[i]@
}

/// A list of triggers says what its triggers say, one by one.
pub proof fn law_triggers_are_listed_one_by_one(triggers: Seq<WebSearchTrigger>)
    ensures
        web_search::triggers_view(triggers).len() == triggers.len(),
        forall|i: int|
            0 <= i < triggers.len() ==> #[trigger] web_search::triggers_view(triggers)[i]
                == triggers[i]@,
{
}

} // verus!
