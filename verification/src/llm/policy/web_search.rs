//! The web-search policy: whether a detected server tool reroutes its request to the sidecar,
//! and what the sidecar is told.

use vstd::prelude::*;

use crate::json;
use crate::json::{count_json, object_of, Json, JsonView};
use crate::llm::web_search;
use crate::llm::web_search::{WebSearchTrigger, WebSearchTriggerView};
use crate::target::{Target, TargetView};
use crate::text::str_eq;

verus! {

/// The sidecar that a request is rerouted to.
#[derive(Debug)]
pub struct WebSearchReroute {
    pub target: Target,
}

/// The parts of a URL that a connection needs.
pub struct UrlParts {
    pub host: Option<String>,
    /// The port that the URL gives, or else the known port of its scheme.
    pub port: Option<u16>,
}

/// What the parts of a URL say.
pub struct UrlPartsView {
    pub host: Option<Seq<char>>,
    pub port: Option<u16>,
}

impl View for UrlParts {
    type V = UrlPartsView;

    open spec fn view(&self) -> UrlPartsView {
        UrlPartsView {
            host: match self.host {
                Some(host) => Some(host@),
                None => None,
            },
            port: self.port,
        }
    }
}

/// What optional parts of a URL say.
pub open spec fn opt_parts_view(parts: Option<UrlParts>) -> Option<UrlPartsView> {
    match parts {
        Some(p) => Some(p@),
        None => None,
    }
}

/// What `url::Url::parse` finds in a text: nothing where it is no URL, and else what
/// `host_str` and `port_or_known_default` give for it.
pub uninterp spec fn parsed_url(url: Seq<char>) -> Option<UrlPartsView>;

/// `url::Url::parse` reads a URL, of which `host_str` gives the host and
/// `port_or_known_default` the port. The text alone determines them.
#[verifier::external_body]
fn parse_url(url: &str) -> (res: Option<UrlParts>)
    ensures
        opt_parts_view(res) == parsed_url(url@),
{
    match url::Url::parse(url) {
        Ok(parsed) => Some(
            UrlParts {
                host: parsed.host_str().map(str::to_owned),
                port: parsed.port_or_known_default(),
            },
        ),
        Err(_) => None,
    }
}

/// The target that the parts of a sidecar's URL give: none without a host, and port 80 where
/// the URL gives none.
pub open spec fn sidecar_target(parts: Option<UrlPartsView>) -> Option<TargetView> {
    match parts {
        Some(found) => match found.host {
            Some(host) => if host.len() == 0 {
                None
            } else {
                Some(
                    TargetView::Hostname(
                        host,
                        match found.port {
                            Some(port) => port,
                            None => 80,
                        },
                    ),
                )
            },
            None => None,
        },
        None => None,
    }
}

impl WebSearchReroute {
    /// The reroute to a sidecar whose URL has these parts.
    pub fn from_parts(parts: Option<UrlParts>) -> (res: Option<WebSearchReroute>)
        ensures
            match res {
                Some(reroute) => sidecar_target(opt_parts_view(parts)) == Some(reroute.target@),
                None => sidecar_target(opt_parts_view(parts)) is None,
            },
    {
        let found: UrlParts = match parts {
            Some(found) => found,
            None => return None,
        };
        let port: u16 = match found.port {
            Some(port) => port,
            None => 80,
        };
        match found.host {
            Some(host) => {
                if host.as_str().unicode_len() == 0 {
                    None
                } else {
                    Some(WebSearchReroute { target: Target::Hostname(host, port) })
                }
            },
            None => None,
        }
    }

    /// The reroute to a sidecar; none where its URL cannot be read, so that the request stays
    /// where it is.
    pub fn from_sidecar_url(sidecar_url: &str) -> (res: Option<WebSearchReroute>)
        ensures
            match res {
                Some(reroute) => sidecar_target(parsed_url(sidecar_url@)) == Some(reroute.target@),
                None => sidecar_target(parsed_url(sidecar_url@)) is None,
            },
    {
        WebSearchReroute::from_parts(parse_url(sidecar_url))
    }
}

/// The kind of route that a request came by.
#[derive(Debug, Clone, Copy, PartialEq, Eq, Structural)]
pub enum RouteType {
    Completions,
    Messages,
    Responses,
    AnthropicTokenCount,
    Passthrough,
    Detect,
    Models,
    Embeddings,
    Realtime,
    Rerank,
    GenerateContent,
    GeminiCountTokens,
}

/// The name that the sidecar knows a route by; a route that is none of chat goes as chat.
pub open spec fn route_name(route_type: RouteType) -> Seq<char> {
    match route_type {
        RouteType::Messages => "llm/v1/messages"@,
        RouteType::AnthropicTokenCount => "llm/v1/messages"@,
        RouteType::Responses => "llm/v1/responses"@,
        _ => "llm/v1/chat"@,
    }
}

/// The name that the sidecar knows a route by.
pub fn route_type_string(route_type: RouteType) -> (res: &'static str)
    ensures
        res@ == route_name(route_type),
{
    match route_type {
        RouteType::Completions => "llm/v1/chat",
        RouteType::Messages | RouteType::AnthropicTokenCount => "llm/v1/messages",
        RouteType::Responses => "llm/v1/responses",
        RouteType::Passthrough
        | RouteType::Detect
        | RouteType::Models
        | RouteType::Embeddings
        | RouteType::Realtime
        | RouteType::Rerank
        | RouteType::GenerateContent
        | RouteType::GeminiCountTokens => "llm/v1/chat",
    }
}

/// The web-search policy of a target.
pub struct WebSearchConfig {
    /// The URL of the sidecar. Without one nothing is rerouted.
    pub sidecar_url: Option<String>,
    /// Whether the sidecar streams.
    pub streaming: bool,
    /// Whether server tool calls of one batch wait for the next turn.
    pub lazy_defer: bool,
    /// Whether the client's own tools are forwarded to the sidecar.
    pub client_tools: bool,
    /// The server tools of this target. An empty list stands for web search.
    pub enabled_tools: Vec<EnabledServerTool>,
}

/// A server tool of a target.
pub struct EnabledServerTool {
    pub name: String,
    pub enabled: bool,
}

/// What a server tool of a target says.
pub struct EnabledServerToolView {
    pub name: Seq<char>,
    pub enabled: bool,
}

impl View for EnabledServerTool {
    type V = EnabledServerToolView;

    open spec fn view(&self) -> EnabledServerToolView {
        EnabledServerToolView { name: self.name@, enabled: self.enabled }
    }
}

impl Default for EnabledServerTool {
    fn default() -> (res: EnabledServerTool)
        ensures
            res@ == (EnabledServerToolView { name: Seq::empty(), enabled: true }),
    {
        let res = EnabledServerTool { name: String::new(), enabled: true };
        assert(res.name@ =~= Seq::empty());
        res
    }
}

impl Default for WebSearchConfig {
    fn default() -> (res: WebSearchConfig)
        ensures
            res.sidecar_url is None,
            res.streaming,
            !res.lazy_defer,
            res.client_tools,
            res.enabled_tools@.len() == 0,
    {
        WebSearchConfig {
            sidecar_url: None,
            streaming: true,
            lazy_defer: false,
            client_tools: true,
            enabled_tools: Vec::new(),
        }
    }
}

impl WebSearchConfig {
    /// Whether the list of server tools has one of this name that is enabled.
    pub open spec fn lists(self, name: Seq<char>) -> bool {
        exists|i: int|
            0 <= i < self.enabled_tools@.len() && (#[trigger] self.enabled_tools@[i]).name@ == name
                && self.enabled_tools@[i].enabled
    }

    /// Whether web search is enabled.
    pub open spec fn searches(self) -> bool {
        self.sidecar_url is Some && (self.enabled_tools@.len() == 0 || self.lists("web_search"@))
    }

    /// Whether a trigger of this name is acted on.
    pub open spec fn acts_on(self, name: Seq<char>) -> bool {
        self.searches() && if self.enabled_tools@.len() == 0 {
            name == "web_search"@
        } else {
            self.lists(name)
        }
    }

    /// The triggers that are acted on, in turn.
    pub open spec fn selected(self, found: Seq<WebSearchTriggerView>) -> Seq<WebSearchTriggerView>
        decreases found.len(),
    {
        if found.len() == 0 {
            Seq::empty()
        } else if self.acts_on(found.last().name) {
            self.selected(found.drop_last()).push(found.last())
        } else {
            self.selected(found.drop_last())
        }
    }

    fn lists_tool(&self, name: &str) -> (res: bool)
        ensures
            res == self.lists(name@),
    {
        for i in 0..self.enabled_tools.len()
            invariant
                forall|j: int|
                    0 <= j < i ==> !((#[trigger] self.enabled_tools@[j]).name@ == name@
                        && self.enabled_tools@[j].enabled),
        {
            if self.enabled_tools[i].enabled && str_eq(self.enabled_tools[i].name.as_str(), name) {
                return true;
            }
        }
        false
    }

    /// Whether web search is enabled: a sidecar is set, and web search is listed as enabled or
    /// nothing is listed.
    pub fn web_search_enabled(&self) -> (res: bool)
        ensures
            res == self.searches(),
    {
        if self.sidecar_url.is_none() {
            return false;
        }
        if self.enabled_tools.len() == 0 {
            return true;
        }
        self.lists_tool("web_search")
    }

    /// The triggers that are acted on. Where there are none the request stays where it is.
    pub fn select_enabled<'a>(&self, found: &'a [WebSearchTrigger]) -> (res: Vec<&'a WebSearchTrigger>)
        ensures
            refs_view(res@) == self.selected(web_search::triggers_view(found@)),
    {
        let mut out: Vec<&'a WebSearchTrigger> = Vec::new();
        let ghost all = web_search::triggers_view(found@);
        let enabled = self.web_search_enabled();
        assert(refs_view(out@) =~= Seq::empty());
        for i in 0..found.len()
            invariant
                all == web_search::triggers_view(found@),
                enabled == self.searches(),
                refs_view(out@) == self.selected(all.take(i as int)),
        {
            assert(all.take(i + 1).drop_last() == all.take(i as int));
            let ghost before = refs_view(out@);
            let trigger = &found[i];
            let acts = enabled && if self.enabled_tools.len() == 0 {
                str_eq(trigger.name, "web_search")
            } else {
                self.lists_tool(trigger.name)
            };
            if acts {
                out.push(trigger);
                assert(refs_view(out@) =~= before.push(trigger@));
            }
        }
        assert(all.take(all.len() as int) == all);
        out
    }
}

/// What a list of triggers says.
pub open spec fn refs_view(triggers: Seq<&WebSearchTrigger>) -> Seq<WebSearchTriggerView> {
    triggers.map_values(|t: &WebSearchTrigger| t@)
}

/// A list of texts as a document.
pub open spec fn texts_document(texts: Seq<Seq<char>>) -> JsonView {
    JsonView::Array(texts.map_values(|t: Seq<char>| JsonView::Text(t)))
}

/// The list of an optional list of texts as a document.
pub open spec fn opt_texts_document(texts: Option<Seq<Seq<char>>>) -> Option<JsonView> {
    match texts {
        Some(list) => Some(texts_document(list)),
        None => None,
    }
}

/// What the sidecar is told of a trigger: its name and the options that it has.
pub open spec fn trigger_document(trigger: WebSearchTriggerView) -> JsonView {
    json::singleton("name"@, JsonView::Text(trigger.name)).with_optional(
        "max_uses"@,
        json::count_document(trigger.max_uses),
    ).with_optional("allowed_domains"@, opt_texts_document(trigger.allowed_domains)).with_optional(
        "blocked_domains"@,
        opt_texts_document(trigger.blocked_domains),
    ).with_optional("user_location"@, trigger.user_location)
}

/// What the sidecar is told of a request: nothing where no trigger is acted on.
pub open spec fn config_document(
    selected: Seq<WebSearchTriggerView>,
    route_type: RouteType,
    lazy_defer: bool,
) -> Option<JsonView> {
    if selected.len() == 0 {
        None
    } else {
        Some(
            json::singleton(
                "tools"@,
                JsonView::Array(
                    selected.map_values(|t: WebSearchTriggerView| trigger_document(t)),
                ),
            ).with_member("route_type"@, JsonView::Text(route_name(route_type))).with_member(
                "lazy_defer"@,
                JsonView::Bool(lazy_defer),
            ),
        )
    }
}

fn texts_json(texts: &Vec<String>) -> (res: Json)
    ensures
        res@ == texts_document(web_search::texts_view(texts@)),
{
    let mut items: Vec<Json> = Vec::new();
    for i in 0..texts.len()
        invariant
            items.len() == i,
            forall|j: int| 0 <= j < i ==> (#[trigger] items@[j])@ == JsonView::Text(texts@[j]@),
    {
        items.push(Json::Text(texts[i].clone()));
    }
    proof {
        json::lemma_items_view(items@);
        assert(json::items_view(items@) =~= web_search::texts_view(texts@).map_values(
            |t: Seq<char>| JsonView::Text(t),
        ));
    }
    Json::Array(items)
}

fn trigger_json(trigger: &WebSearchTrigger) -> (res: Json)
    ensures
        res@ == trigger_document(trigger@),
{
    let mut entry = object_of("name", Json::Text(trigger.name.to_owned()));
    entry.set_optional("max_uses", count_json(trigger.max_uses));
    if let Some(allowed) = &trigger.allowed_domains {
        entry.set("allowed_domains", texts_json(allowed));
    }
    if let Some(blocked) = &trigger.blocked_domains {
        entry.set("blocked_domains", texts_json(blocked));
    }
    if let Some(location) = &trigger.user_location {
        entry.set("user_location", location.clone());
    }
    entry
}

impl WebSearchConfig {
    /// The value of the `x-ai-ws-config` header: what the sidecar is told of a request. There
    /// is none where no trigger is acted on.
    pub fn ws_config_value(&self, selected: &[&WebSearchTrigger], route_type: RouteType) -> (res:
        Option<Json>)
        ensures
            match res {
                Some(value) => config_document(refs_view(selected@), route_type, self.lazy_defer)
                    == Some(value@),
                None => config_document(refs_view(selected@), route_type, self.lazy_defer) is None,
            },
    {
        let mut tools: Vec<Json> = Vec::new();
        for i in 0..selected.len()
            invariant
                tools.len() == i,
                forall|j: int|
                    0 <= j < i ==> (#[trigger] tools@[j])@ == trigger_document(selected@[j]@),
        {
            tools.push(trigger_json(selected[i]));
        }
        if tools.len() == 0 {
            return None;
        }
        proof {
            json::lemma_items_view(tools@);
            assert(json::items_view(tools@) =~= refs_view(selected@).map_values(
                |t: WebSearchTriggerView| trigger_document(t),
            ));
        }
        let mut value = object_of("tools", Json::Array(tools));
        value.set("route_type", Json::Text(route_type_string(route_type).to_owned()));
        value.set("lazy_defer", Json::Bool(self.lazy_defer));
        Some(value)
    }
}

/// Every trigger that is acted on is one of those found, of a name that is enabled, and the
/// order of the request is kept.
pub proof fn law_only_enabled_triggers_are_selected(
    config: WebSearchConfig,
    found: Seq<WebSearchTriggerView>,
)
    ensures
        config.selected(found).len() <= found.len(),
        forall|k: int|
            0 <= k < config.selected(found).len() ==> config.acts_on(
                (#[trigger] config.selected(found)[k]).name,
            ) && found.contains(config.selected(found)[k]),
    decreases found.len(),
{
    if found.len() > 0 {
        let shorter = found.drop_last();
        law_only_enabled_triggers_are_selected(config, shorter);
        assert forall|k: int| 0 <= k < config.selected(found).len() implies config.acts_on(
            (#[trigger] config.selected(found)[k]).name,
        ) && found.contains(config.selected(found)[k]) by {
            if k < config.selected(shorter).len() {
                assert(config.selected(found)[k] == config.selected(shorter)[k]);
                let i = choose|i: int|
                    0 <= i < shorter.len() && shorter[i] == config.selected(shorter)[k];
                assert(found[i] == config.selected(found)[k]);
            } else {
                assert(found[found.len() - 1] == config.selected(found)[k]);
            }
        }
    }
}

/// A target without web search leaves every request where it is: nothing is selected, and the
/// sidecar is told nothing.
pub proof fn law_disabled_search_is_bypassed(
    config: WebSearchConfig,
    found: Seq<WebSearchTriggerView>,
    route_type: RouteType,
)
    requires
        !config.searches(),
    ensures
        config.selected(found).len() == 0,
        config_document(config.selected(found), route_type, config.lazy_defer) is None,
    decreases found.len(),
{
    if found.len() > 0 {
        law_disabled_search_is_bypassed(config, found.drop_last(), route_type);
    }
}

/// Where web search is enabled, every web search that a request asks for is acted on.
pub proof fn law_enabled_search_acts_on_all(
    config: WebSearchConfig,
    tools: Seq<JsonView>,
)
    requires
        config.searches(),
    ensures
        config.selected(web_search::triggers_in(tools)) == web_search::triggers_in(tools),
    decreases tools.len(),
{
    if tools.len() > 0 {
        let shorter = tools.drop_last();
        law_enabled_search_acts_on_all(config, shorter);
        let found = web_search::triggers_in(tools);
        if web_search::is_server_tool(tools.last()) {
            assert(found.drop_last() =~= web_search::triggers_in(shorter));
        }
    }
}

/// The sidecar is told exactly the options that a trigger has: an option without a value is
/// left out.
pub proof fn law_options_are_told_as_they_are(trigger: WebSearchTriggerView)
    ensures
        trigger_document(trigger).member("name"@) == Some(JsonView::Text(trigger.name)),
        trigger_document(trigger).member("max_uses"@) == json::count_document(trigger.max_uses),
        trigger_document(trigger).member("allowed_domains"@) == opt_texts_document(
            trigger.allowed_domains,
        ),
        trigger_document(trigger).member("blocked_domains"@) == opt_texts_document(
            trigger.blocked_domains,
        ),
        trigger_document(trigger).member("user_location"@) == trigger.user_location,
{
    reveal_strlit("name");
    reveal_strlit("max_uses");
    reveal_strlit("allowed_domains");
    reveal_strlit("blocked_domains");
    reveal_strlit("user_location");
    assert("name"@.len() == 4 && "max_uses"@.len() == 8 && "allowed_domains"@.len() == 15);
    assert("blocked_domains"@.len() == 15 && "user_location"@.len() == 13);
    assert("allowed_domains"@[0] != "blocked_domains"@[0]);
}

} // verus!
