//! What the policies on requests promise.

use vstd::prelude::*;
use vstd::std_specs::convert::FromSpec;

use crate::http::retry;
use crate::http::retry::{Policy, RawPolicy};
use crate::http::sticky;
use crate::http::sticky::LocalSticky;
use crate::json::JsonView;
use crate::laws::detection::written;
use crate::llm::policy::web_search;
use crate::llm::policy::web_search::{
    EnabledServerTool, RouteType, UrlParts, UrlPartsView, WebSearchConfig,
};
use crate::llm::web_search::{WebSearchTrigger, WebSearchTriggerView};
use crate::target::TargetView;

verus! {

/// A request is rerouted to the host of the sidecar's URL, at the port that the URL gives and else
/// at port 80. A URL that cannot be read or that names no host reroutes nothing.
pub proof fn law_the_sidecar_is_where_its_url_says(parts: UrlPartsView, host: Seq<char>, port: u16)
    ensures
        web_search::sidecar_target(None) is None,
        parts.host is None ==> web_search::sidecar_target(Some(parts)) is None,
        parts.host == Some(host) && host.len() == 0 ==> web_search::sidecar_target(
            Some(parts),
        ) is None,
        parts.host == Some(host) && host.len() > 0 && parts.port == Some(port)
            ==> web_search::sidecar_target(Some(parts)) == Some(TargetView::Hostname(host, port)),
        parts.host == Some(host) && host.len() > 0 && parts.port is None
            ==> web_search::sidecar_target(Some(parts)) == Some(TargetView::Hostname(host, 80)),
{
}

/// The parts of a URL say what they hold.
pub proof fn law_url_parts_say_what_they_hold(parts: UrlParts)
    ensures
        parts.host is Some <==> parts@.host is Some,
        parts.host is Some ==> parts@.host->0 == parts.host->0@,
        parts@.port == parts.port,
        web_search::opt_parts_view(Some(parts)) == Some(parts@),
        web_search::opt_parts_view(None) is None,
{
}

/// Messages and the counting of their tokens go by the route of messages, responses by their own,
/// and everything else by the route of chat.
pub proof fn law_routes_by_name(route_type: RouteType)
    ensures
        route_type is Messages || route_type is AnthropicTokenCount ==> web_search::route_name(
            route_type,
        ) == "llm/v1/messages"@,
        route_type is Responses ==> web_search::route_name(route_type) == "llm/v1/responses"@,
        !(route_type is Messages || route_type is AnthropicTokenCount || route_type is Responses)
            ==> web_search::route_name(route_type) == "llm/v1/chat"@,
{
}

/// Whether a tool of a target is listed under this name and enabled.
pub open spec fn enables(tool: EnabledServerTool, name: Seq<char>) -> bool {
    tool.enabled && tool.name@ == name
}

/// Web search is enabled where a sidecar is set and either nothing is listed or web search is
/// listed as enabled. A trigger is acted on where in addition its own name is: that of web search
/// where nothing is listed, and else one that is listed as enabled.
pub proof fn law_when_a_trigger_is_acted_on(config: WebSearchConfig, name: Seq<char>, i: int)
    ensures
        config.sidecar_url is None ==> !config.searches() && !config.acts_on(name),
        config.sidecar_url is Some && config.enabled_tools@.len() == 0 ==> config.searches() && (
        config.acts_on(name) <==> name == "web_search"@),
        config.sidecar_url is Some && 0 <= i < config.enabled_tools@.len() && enables(
            config.enabled_tools@[i],
            "web_search"@,
        ) ==> config.searches(),
        config.searches() && 0 <= i < config.enabled_tools@.len() && enables(
            config.enabled_tools@[i],
            name,
        ) ==> config.acts_on(name),
        config.enabled_tools@.len() > 0 && (forall|j: int|
            0 <= j < config.enabled_tools@.len() ==> !enables(
                #[trigger] config.enabled_tools@[j],
                "web_search"@,
            )) ==> !config.searches(),
        config.enabled_tools@.len() > 0 && (forall|j: int|
            0 <= j < config.enabled_tools@.len() ==> !enables(
                #[trigger] config.enabled_tools@[j],
                name,
            )) ==> !config.acts_on(name),
        config.acts_on(name) ==> config.searches(),
{
    if config.lists(name) && forall|j: int|
        0 <= j < config.enabled_tools@.len() ==> !enables(
            #[trigger] config.enabled_tools@[j],
            name,
        ) {
        let k = choose|k: int|
            0 <= k < config.enabled_tools@.len() && (#[trigger] config.enabled_tools@[k]).name@
                == name && config.enabled_tools@[k].enabled;
        assert(enables(config.enabled_tools@[k], name));
    }
    if config.lists("web_search"@) && forall|j: int|
        0 <= j < config.enabled_tools@.len() ==> !enables(
            #[trigger] config.enabled_tools@[j],
            "web_search"@,
        ) {
        let k = choose|k: int|
            0 <= k < config.enabled_tools@.len() && (#[trigger] config.enabled_tools@[k]).name@
                == "web_search"@ && config.enabled_tools@[k].enabled;
        assert(enables(config.enabled_tools@[k], "web_search"@));
    }
}

/// The triggers that are acted on are those found of which each is, in the order in which they
/// were found: one more trigger comes last where it is acted on, and changes nothing where not.
pub proof fn law_triggers_are_selected_one_by_one(
    config: WebSearchConfig,
    found: Seq<WebSearchTriggerView>,
    trigger: WebSearchTriggerView,
)
    ensures
        config.selected(Seq::<WebSearchTriggerView>::empty()).len() == 0,
        config.acts_on(trigger.name) ==> config.selected(found.push(trigger)) == config.selected(
            found,
        ).push(trigger),
        !config.acts_on(trigger.name) ==> config.selected(found.push(trigger)) == config.selected(
            found,
        ),
{
    assert(found.push(trigger).drop_last() =~= found);
}

/// The sidecar is told the name of a trigger and each option that it has, as it has it; an option
/// that it does not have is left out.
pub proof fn law_the_sidecar_is_told_each_option(trigger: WebSearchTriggerView)
    ensures
        ({
            let told = web_search::trigger_document(trigger);
            &&& told.member("name"@) == Some(JsonView::Text(trigger.name))
            &&& trigger.max_uses is Some ==> told.member("max_uses"@) == Some(
                JsonView::Unsigned(trigger.max_uses->0),
            )
            &&& trigger.max_uses is None ==> told.member("max_uses"@) is None
            &&& trigger.allowed_domains is Some ==> told.member("allowed_domains"@) == Some(
                written(trigger.allowed_domains->0),
            )
            &&& trigger.allowed_domains is None ==> told.member("allowed_domains"@) is None
            &&& trigger.blocked_domains is Some ==> told.member("blocked_domains"@) == Some(
                written(trigger.blocked_domains->0),
            )
            &&& trigger.blocked_domains is None ==> told.member("blocked_domains"@) is None
            &&& told.member("user_location"@) == trigger.user_location
        }),
{
    web_search::law_options_are_told_as_they_are(trigger);
    if trigger.allowed_domains is Some {
        assert(web_search::texts_document(trigger.allowed_domains->0)->Array_0 =~= written(
            trigger.allowed_domains->0,
        )->Array_0);
    }
    if trigger.blocked_domains is Some {
        assert(web_search::texts_document(trigger.blocked_domains->0)->Array_0 =~= written(
            trigger.blocked_domains->0,
        )->Array_0);
    }
}

/// The sidecar is told of each trigger that is acted on, in its order, of the route, and whether
/// calls are deferred; without a trigger it is told nothing.
pub proof fn law_the_sidecar_is_told_of_all_triggers(
    selected: Seq<WebSearchTriggerView>,
    route_type: RouteType,
    lazy_defer: bool,
    i: int,
)
    ensures
        web_search::config_document(selected, route_type, lazy_defer) is None <==> selected.len()
            == 0,
        selected.len() > 0 ==> {
            let told = web_search::config_document(selected, route_type, lazy_defer)->0;
            let tools = told.member("tools"@)->0->Array_0;
            &&& told.member("tools"@) is Some
            &&& told.member("tools"@)->0 is Array
            &&& tools.len() == selected.len()
            &&& 0 <= i < selected.len() ==> tools[i] == web_search::trigger_document(selected[i])
            &&& told.member("route_type"@) == Some(
                JsonView::Text(web_search::route_name(route_type)),
            )
            &&& told.member("lazy_defer"@) == Some(JsonView::Bool(lazy_defer))
        },
{
    reveal_strlit("tools");
    reveal_strlit("route_type");
    reveal_strlit("lazy_defer");
    assert("tools"@.len() == 5 && "route_type"@.len() == 10 && "lazy_defer"@.len() == 10);
    assert("route_type"@[0] != "lazy_defer"@[0]);
}

/// The sidecar is told nothing else, neither of a trigger nor of a request.
pub proof fn law_the_sidecar_is_told_nothing_else(
    selected: Seq<WebSearchTriggerView>,
    trigger: WebSearchTriggerView,
    route_type: RouteType,
    lazy_defer: bool,
    key: Seq<char>,
)
    ensures
        web_search::trigger_document(trigger).member(key) is Some ==> {
            ||| key == "name"@
            ||| key == "max_uses"@
            ||| key == "allowed_domains"@
            ||| key == "blocked_domains"@
            ||| key == "user_location"@
        },
        selected.len() > 0 && web_search::config_document(
            selected,
            route_type,
            lazy_defer,
        )->0.member(key) is Some ==> {
            ||| key == "tools"@
            ||| key == "route_type"@
            ||| key == "lazy_defer"@
        },
{
}

/// References to triggers say what the triggers say, one by one.
pub proof fn law_selected_triggers_are_listed_one_by_one(triggers: Seq<&WebSearchTrigger>)
    ensures
        web_search::refs_view(triggers).len() == triggers.len(),
        forall|i: int|
            0 <= i < triggers.len() ==> #[trigger] web_search::refs_view(triggers)[i]
                == triggers[i]@,
{
}

/// Status codes are the numbers of three digits, and a list of codes is refused for the first
/// number in it that is none.
pub proof fn law_codes_have_three_digits(codes: Seq<u16>, i: int)
    requires
        0 <= i < codes.len(),
    ensures
        retry::is_status_code(codes[i]) <==> 100 <= codes[i] < 1000,
        retry::all_status_codes(codes) ==> 100 <= codes[i] < 1000,
        !retry::is_status_code(codes[i]) && (forall|j: int|
            0 <= j < i ==> 100 <= #[trigger] codes[j] < 1000) ==> retry::first_bad_code(
            codes,
            codes[i],
        ),
        (forall|j: int| 0 <= j < codes.len() ==> 100 <= #[trigger] codes[j] < 1000)
            ==> retry::all_status_codes(codes),
{
    if retry::all_status_codes(codes) {
        assert(retry::is_status_code(codes[i]));
    }
    if !retry::is_status_code(codes[i]) && forall|j: int|
        0 <= j < i ==> 100 <= #[trigger] codes[j] < 1000 {
        let first = codes.take(i);
        assert forall|j: int| 0 <= j < first.len() implies retry::is_status_code(
            #[trigger] first[j],
        ) by {
            assert(first[j] == codes[j]);
        }
    }
}

/// A policy that was read makes at least one attempt, retries only for status codes, and keeps
/// some of a body.
pub proof fn law_a_policy_makes_sense(policy: Policy, i: int)
    requires
        policy.well_formed(),
    ensures
        policy.attempts >= 1,
        policy.max_replay_bytes >= 1,
        0 <= i < policy.codes@.len() ==> 100 <= policy.codes@[i] < 1000,
{
    if 0 <= i < policy.codes@.len() {
        assert(retry::is_status_code(policy.codes@[i]));
    }
}

/// A policy is read exactly where some attempt is asked for and all codes are status codes, and is
/// then what was configured: one attempt and 64 KiB where nothing else was.
pub proof fn law_a_policy_is_what_was_configured(raw: RawPolicy, policy: Policy)
    ensures
        raw.is_readable() <==> raw.attempts != Some(0u8) && forall|i: int|
            0 <= i < raw.codes@.len() ==> 100 <= #[trigger] raw.codes@[i] < 1000,
        raw.gives(policy) ==> {
            &&& raw.attempts is Some ==> policy.attempts == raw.attempts->0
            &&& raw.attempts is None ==> policy.attempts == 1
            &&& policy.backoff == raw.backoff
            &&& policy.codes@ == raw.codes@
            &&& raw.max_replay_bytes is Some && raw.max_replay_bytes->0 > 0
                ==> policy.max_replay_bytes == raw.max_replay_bytes->0
            &&& raw.max_replay_bytes is None || raw.max_replay_bytes->0 == 0
                ==> policy.max_replay_bytes == 65536
            &&& policy.precondition == raw.precondition
            &&& policy.condition == raw.condition
        },
{
    let codes = raw.codes@;
    if retry::all_status_codes(codes) {
        assert forall|i: int| 0 <= i < codes.len() implies 100 <= #[trigger] codes[i] < 1000 by {
            assert(retry::is_status_code(codes[i]));
        }
    }
    if forall|i: int| 0 <= i < codes.len() ==> 100 <= #[trigger] codes[i] < 1000 {
        assert forall|i: int| 0 <= i < codes.len() implies retry::is_status_code(
            #[trigger] codes[i],
        ) by {}
    }
}

/// The expressions of a policy: the one on the request comes before the one on the answer, and
/// none is added or left out.
pub proof fn law_expressions_in_their_order(policy: Policy)
    ensures
        ({
            let texts = policy.expression_texts();
            &&& policy.precondition is Some ==> texts.len() > 0 && texts[0]
                == policy.precondition->0@
            &&& policy.condition is Some ==> texts.len() > 0 && texts.last()
                == policy.condition->0@
            &&& texts.len() == (if policy.precondition is Some {
                1int
            } else {
                0
            }) + (if policy.condition is Some {
                1int
            } else {
                0
            })
        }),
{
}

/// A sticky policy is taken over as it is configured.
pub proof fn law_a_sticky_policy_is_taken_over(local: LocalSticky)
    ensures
        <sticky::Policy as FromSpec<LocalSticky>>::from_spec(local).key == local.key,
        <sticky::Policy as FromSpec<LocalSticky>>::from_spec(local).ttl == local.ttl,
{
}

} // verus!
