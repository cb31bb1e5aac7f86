//! What remote calls lead to, who may make them, and which files the web interface has.
use vstd::prelude::*;
use vstd::string::*;
use crate::json::{no_fields, JsonView};
use crate::server::{
    asset_for, authority_host, page_policy, permitted, planned, same_origin, HeaderText,
    RequestOrigin, RpcPlanView,
};

verus! {

/// The call `id` is answered with an error of the given code and no result.
pub open spec fn is_refused(plan: RpcPlanView, id: JsonView, code: int) -> bool {
    plan matches RpcPlanView::Reply(r) && r.id == id && r.result is None && (
    r.error matches Some(e) && e.code == code && e.data is None)
}

/// A call in another version of the protocol is refused.
pub proof fn other_versions_are_refused(
    jsonrpc: Seq<char>,
    id: JsonView,
    method: Seq<char>,
    params: Option<JsonView>,
    local: bool,
    agents: bool,
)
    requires
        jsonrpc != "2.0"@,
    ensures
        is_refused(planned(jsonrpc, id, method, params, local, agents), id, -32600),
{
}

/// Each method of the pool has its own plan, with the identifier and the parameters of the call;
/// absent parameters are null. A warm-up takes none.
pub proof fn pool_calls_are_routed_by_method(
    id: JsonView,
    params: Option<JsonView>,
    local: bool,
    agents: bool,
)
    ensures
        ({
            let given = match params {
                Some(v) => v,
                None => JsonView::Null,
            };
            let no_params = given == JsonView::Null || given == JsonView::Object(Seq::empty());
            &&& planned("2.0"@, id, "pool.initialize"@, params, local, agents)
                == (RpcPlanView::Initialize { id, params: given })
            &&& planned("2.0"@, id, "pool.execute"@, params, local, agents)
                == (RpcPlanView::Execute { id, params: given })
            &&& planned("2.0"@, id, "pool.stats"@, params, local, agents) == (RpcPlanView::Stats {
                id,
            })
            &&& no_params ==> planned("2.0"@, id, "pool.prestart"@, params, local, agents) == (
            RpcPlanView::Prestart { id })
            &&& !no_params ==> is_refused(
                planned("2.0"@, id, "pool.prestart"@, params, local, agents),
                id,
                -32602,
            )
        }),
{
    reveal_strlit("cc.");
    reveal_strlit("pool.initialize");
    reveal_strlit("pool.execute");
    reveal_strlit("pool.prestart");
    reveal_strlit("pool.stats");
    assert("cc."@[0] != "pool.initialize"@[0]);
    assert("cc."@[0] != "pool.execute"@[0]);
    assert("cc."@[0] != "pool.prestart"@[0]);
    assert("cc."@[0] != "pool.stats"@[0]);
    assert("pool.initialize"@.len() == 15);
    assert("pool.execute"@.len() == 12);
    assert("pool.prestart"@.len() == 13);
    assert("pool.stats"@.len() == 10);
    if let Some(JsonView::Object(members)) = params {
        if members.len() == 0 {
            assert(members =~= Seq::empty());
        }
    }
}

/// A call about conversations reaches them just where it comes from this machine and from no
/// foreign page and the service has conversations; absent parameters are an empty object.
pub proof fn conversation_calls_are_passed_on(
    id: JsonView,
    method: Seq<char>,
    params: Option<JsonView>,
    local: bool,
    agents: bool,
)
    requires
        "cc."@.is_prefix_of(method),
    ensures
        ({
            let plan = planned("2.0"@, id, method, params, local, agents);
            let given = match params {
                Some(v) => v,
                None => JsonView::Object(Seq::empty()),
            };
            &&& local && agents ==> plan == (RpcPlanView::Agents { id, method, params: given })
            &&& !local ==> is_refused(plan, id, -32101)
            &&& local && !agents && method != "cc.status"@ ==> is_refused(plan, id, -32101)
            &&& local && !agents && method == "cc.status"@ ==> (plan matches RpcPlanView::Reply(r)
                && r.id == id && r.error is None && r.result is Some)
        }),
{
    assert(no_fields() =~= Seq::empty());
}

/// A call of an unknown method is refused.
pub proof fn unknown_methods_are_refused(
    id: JsonView,
    method: Seq<char>,
    params: Option<JsonView>,
    local: bool,
    agents: bool,
)
    requires
        !"cc."@.is_prefix_of(method),
        method != "pool.initialize"@,
        method != "pool.prestart"@,
        method != "pool.execute"@,
        method != "pool.stats"@,
    ensures
        is_refused(planned("2.0"@, id, method, params, local, agents), id, -32601),
{
}

/// A request is taken for a local one just where its host header names this machine, no header
/// of the browser tells of a foreign page, and the origin, where there is one, is the page that
/// the host itself serves.
pub proof fn local_requests_are_recognized(request: RequestOrigin, host: Option<Seq<char>>)
    ensures
        same_origin(request, host) <==> {
            &&& host == Some("localhost"@) || host == Some("127.0.0.1"@) || host == Some("[::1]"@)
            &&& request.sec_fetch_site is Absent || (
            request.sec_fetch_site matches HeaderText::Text(site) && (site@ == "same-origin"@
                || site@ == "none"@))
            &&& request.host matches HeaderText::Text(authority) && (request.origin is Absent || (
            request.origin matches HeaderText::Text(origin) && origin@ == "http://"@ + authority@))
        },
{
}

/// A request is judged by the host that its own host header names; without a readable host header
/// it is not a local one.
pub proof fn requests_are_judged_by_their_host(request: RequestOrigin)
    ensures
        request.host !is Text ==> !permitted(request),
        request.host matches HeaderText::Text(authority) ==> (permitted(request) <==> same_origin(
            request,
            authority_host(authority@),
        )),
{
}

/// The page stands at the root, and every other file under its own name among the assets: style
/// sheets and scripts, each with its content type. Only the page has a policy, by which nothing
/// but the service itself is loaded.
pub proof fn files_stand_under_their_names(path: Seq<char>)
    ensures
        asset_for("/"@) == Some(("text/html; charset=utf-8"@, "index.html"@, true)),
        path != "/"@ ==> match asset_for(path) {
            Some((content_type, name, has_policy)) => {
                &&& path == "/assets/"@ + name
                &&& !has_policy
                &&& name == "dashboard.css"@ ==> content_type == "text/css; charset=utf-8"@
                &&& name != "dashboard.css"@ ==> content_type == "text/javascript; charset=utf-8"@
            },
            None => true,
        },
        asset_for("/assets/dashboard.css"@) is Some,
        asset_for("/assets/dashboard.js"@) is Some,
        asset_for("/assets/rpc-client.js"@) is Some,
        asset_for("/assets/debugger.js"@) is Some,
        asset_for("/assets/agents.js"@) is Some,
        page_policy()
            == "default-src 'self'; script-src 'self'; style-src 'self'; img-src 'self' data:; connect-src 'self'; base-uri 'none'; frame-ancestors 'none'"@,
{
    reveal_strlit("/");
    reveal_strlit("/assets/");
    reveal_strlit("dashboard.css");
    reveal_strlit("dashboard.js");
    reveal_strlit("rpc-client.js");
    reveal_strlit("debugger.js");
    reveal_strlit("agents.js");
    reveal_strlit("/assets/dashboard.css");
    reveal_strlit("/assets/dashboard.js");
    reveal_strlit("/assets/rpc-client.js");
    reveal_strlit("/assets/debugger.js");
    reveal_strlit("/assets/agents.js");
    assert("/assets/dashboard.css"@ =~= "/assets/"@ + "dashboard.css"@);
    assert("/assets/dashboard.js"@ =~= "/assets/"@ + "dashboard.js"@);
    assert("/assets/rpc-client.js"@ =~= "/assets/"@ + "rpc-client.js"@);
    assert("/assets/debugger.js"@ =~= "/assets/"@ + "debugger.js"@);
    assert("/assets/agents.js"@ =~= "/assets/"@ + "agents.js"@);
    assert("dashboard.css"@.len() == 13);
    assert("dashboard.js"@.len() == 12);
    assert("rpc-client.js"@[0] == 'r' && "dashboard.css"@[0] == 'd');
    assert("debugger.js"@.len() == 11);
    assert("agents.js"@.len() == 9);
}

} // verus!
