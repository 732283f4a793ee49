//! Replies about the models that are registered and loaded.

use vstd::prelude::*;

use crate::json::{get, law_member_reads_back, member_count, number_value, Json, JsonV};
use crate::keep_alive::{policy_from_request_field, request_policy, KeepAlivePolicy};
use crate::openai::errors::ApiErrorCategory;
use crate::openai::flow::{refused, Refusal};
use crate::openai::reply::{
    error_reply, error_response, plain_reply, service_unavailable, unavailable_reply, Reply, ReplyV,
};
use crate::registry::{ids_of, ModelEntry, ModelRegistry};
use crate::text::{decimal, join3, opt_view, text_eq, views};

verus! {

/// A loaded model, with the seconds since it was loaded and last used.
#[derive(Debug)]
pub struct Resident {
    pub id: String,
    pub loaded_ago: u64,
    pub used_ago: u64,
}

pub struct ResidentV {
    pub id: Seq<char>,
    pub loaded_ago: u64,
    pub used_ago: u64,
}

impl View for Resident {
    type V = ResidentV;

    open spec fn view(&self) -> ResidentV {
        ResidentV { id: self.id@, loaded_ago: self.loaded_ago, used_ago: self.used_ago }
    }
}

/// The time that lies `ago` seconds before `now`; no earlier than the epoch.
pub open spec fn time_before(now: u64, ago: u64) -> nat {
    if now >= ago {
        (now - ago) as nat
    } else {
        0
    }
}

/// The loaded model of this id.
pub open spec fn resident_of(rs: Seq<ResidentV>, id: Seq<char>) -> Option<ResidentV>
    decreases rs.len(),
{
    if rs.len() == 0 {
        None
    } else if rs[0].id == id {
        Some(rs[0])
    } else {
        resident_of(rs.subrange(1, rs.len() as int), id)
    }
}

fn find_resident<'a>(rs: &'a Vec<Resident>, id: &str) -> (r: Option<&'a Resident>)
    ensures
        match r {
            Some(x) => resident_of(views(rs@), id@) == Some(x@),
            None => resident_of(views(rs@), id@) is None,
        },
{
    let ghost all = views(rs@);
    let mut i: usize = 0;
    proof {
        assert(all.subrange(0, all.len() as int) =~= all);
    }
    while i < rs.len()
        invariant
            i <= rs@.len(),
            all == views(rs@),
            resident_of(all, id@) == resident_of(all.subrange(i as int, all.len() as int), id@),
        decreases rs@.len() - i,
    {
        proof {
            let rest = all.subrange(i as int, all.len() as int);
            assert(rest[0] == rs@[i as int]@);
            assert(rest.subrange(1, rest.len() as int) =~= all.subrange(i + 1, all.len() as int));
        }
        if text_eq(rs[i].id.as_str(), id) {
            return Some(&rs[i]);
        }
        i += 1;
    }
    None
}

// ── List ─────────────────────────────────────────────────────────────────────

/// A model in the list; the times only of a loaded one.
pub open spec fn listed_model(id: Seq<char>, rs: Seq<ResidentV>, now: u64) -> JsonV {
    let base = JsonV::object().with("id"@, JsonV::Str(id)).with(
        "object"@,
        JsonV::Str("model"@),
    ).with("created"@, number_value(0)).with("owned_by"@, JsonV::Str("rmlx"@)).with(
        "loaded"@,
        JsonV::Bool(resident_of(rs, id) is Some),
    );
    match resident_of(rs, id) {
        Some(r) => base.with("loaded_at"@, number_value(time_before(now, r.loaded_ago))).with(
            "last_used"@,
            number_value(time_before(now, r.used_ago)),
        ),
        None => base,
    }
}

/// The list of all registered models, in the order of the registry.
pub open spec fn model_list(ids: Seq<Seq<char>>, rs: Seq<ResidentV>, now: u64) -> JsonV {
    JsonV::object().with("object"@, JsonV::Str("list"@)).with(
        "data"@,
        JsonV::Array(Seq::new(ids.len(), |i: int| listed_model(ids[i], rs, now))),
    )
}

fn list_one(id: &str, resident: &Vec<Resident>, now: u64) -> (r: Json)
    ensures
        r@ == listed_model(id@, views(resident@), now),
{
    let found = find_resident(resident, id);
    let base = Json::object().with("id", Json::string(id)).with(
        "object",
        Json::string("model"),
    ).with("created", Json::number(0)).with("owned_by", Json::string("rmlx")).with(
        "loaded",
        Json::Bool(found.is_some()),
    );
    match found {
        Some(x) => base.with("loaded_at", Json::number(now.saturating_sub(x.loaded_ago))).with(
            "last_used",
            Json::number(now.saturating_sub(x.used_ago)),
        ),
        None => base,
    }
}

/// The list of all registered models, in the order of their ids.
pub fn list_models(registry: &ModelRegistry, resident: &Vec<Resident>, now: u64) -> (r: Reply)
    ensures
        r@ == plain_reply(200, model_list(ids_of(registry@), views(resident@), now)),
{
    let entries: &Vec<ModelEntry> = registry.list();
    let ghost ids = ids_of(entries@);
    let mut data: Vec<Json> = Vec::new();
    let mut i: usize = 0;
    while i < entries.len()
        invariant
            i <= entries@.len(),
            ids == ids_of(entries@),
            data@.len() == i,
            forall|k: int|
                0 <= k < i ==> (#[trigger] data@[k])@ == listed_model(
                    ids[k],
                    views(resident@),
                    now,
                ),
        decreases entries@.len() - i,
    {
        data.push(list_one(entries[i].id.as_str(), resident, now));
        i += 1;
    }
    proof {
        assert(views(data@) =~= Seq::new(
            ids.len(),
            |i: int| listed_model(ids[i], views(resident@), now),
        ));
    }
    Reply::plain(
        200,
        Json::object().with("object", Json::string("list")).with("data", Json::array(data)),
    )
}

// ── One model ────────────────────────────────────────────────────────────────

/// The reply when a model is not registered.
pub open spec fn unknown_model(id: Seq<char>) -> ReplyV {
    error_reply(404, "model_not_found"@, "model '"@ + id + "' not found in registry"@)
}

/// The reply when a model is not registered.
pub fn unknown_model_reply(id: &str) -> (r: Reply)
    ensures
        r@ == unknown_model(id@),
{
    error_response(
        404,
        "model_not_found",
        join3("model '", id, "' not found in registry").as_str(),
    )
}

/// Whether a model can be loaded on request: it is registered.
pub fn check_load(registry: &ModelRegistry, id: &str) -> (r: Result<(), Refusal>)
    ensures
        match r {
            Ok(_) => !crate::registry::lacks(registry@, id@),
            Err(f) => crate::registry::lacks(registry@, id@) && f@ == refused(
                unknown_model(id@),
                ApiErrorCategory::NotFound,
            ),
        },
{
    if registry.get(id).is_none() {
        Err(
            Refusal {
                reply: unknown_model_reply(id),
                category: Some(ApiErrorCategory::NotFound),
            },
        )
    } else {
        Ok(())
    }
}

/// What follows a request to load a model: the policy that its slot gets, if the
/// request sets one, and the reply; a model that could not be loaded is refused.
pub fn load_model(id: &str, load_error: &Option<String>, keep_alive: Option<i64>) -> (r: Result<
    (Option<KeepAlivePolicy>, Reply),
    Refusal,
>)
    ensures
        match *load_error {
            Some(e) => r matches Err(f) && f@ == refused(
                unavailable_reply(e@),
                ApiErrorCategory::Upstream,
            ),
            None => r matches Ok(p) && opt_view(p.0) == request_policy(keep_alive) && p.1@ == plain_reply(
                200,
                JsonV::object().with("ok"@, JsonV::Bool(true)).with("model"@, JsonV::Str(id@)),
            ),
        },
{
    match load_error {
        Some(e) => Err(
            Refusal {
                reply: service_unavailable(e.as_str()),
                category: Some(ApiErrorCategory::Upstream),
            },
        ),
        None => Ok((policy_from_request_field(keep_alive), loaded_reply(id))),
    }
}

/// The reply when a model has been loaded.
pub fn loaded_reply(id: &str) -> (r: Reply)
    ensures
        r@ == plain_reply(
            200,
            JsonV::object().with("ok"@, JsonV::Bool(true)).with("model"@, JsonV::Str(id@)),
        ),
{
    Reply::plain(
        200,
        Json::object().with("ok", Json::Bool(true)).with("model", Json::string(id)),
    )
}

/// The reply to a request to unload a model, by whether it was loaded.
pub fn unload_reply(id: &str, was_loaded: bool) -> (r: Reply)
    ensures
        r@ == if was_loaded {
            plain_reply(200, JsonV::object().with("ok"@, JsonV::Bool(true)))
        } else {
            plain_reply(
                404,
                JsonV::object().with("ok"@, JsonV::Bool(false)).with(
                    "message"@,
                    JsonV::Str("model '"@ + id@ + "' is not loaded"@),
                ),
            )
        },
{
    if was_loaded {
        Reply::plain(200, Json::object().with("ok", Json::Bool(true)))
    } else {
        Reply::plain(
            404,
            Json::object().with("ok", Json::Bool(false)).with(
                "message",
                Json::string(join3("model '", id, "' is not loaded").as_str()),
            ),
        )
    }
}

/// The status of a registered model; without times when it is not loaded.
pub open spec fn status_body(id: Seq<char>, resident: Option<ResidentV>, now: u64) -> JsonV {
    let base = JsonV::object().with("id"@, JsonV::Str(id)).with(
        "loaded"@,
        JsonV::Bool(resident is Some),
    );
    match resident {
        Some(r) => base.with("loaded_at"@, number_value(time_before(now, r.loaded_ago))).with(
            "last_used"@,
            number_value(time_before(now, r.used_ago)),
        ).with("idle_secs"@, number_value(r.used_ago as nat)),
        None => base.with("loaded_at"@, JsonV::Null).with("last_used"@, JsonV::Null).with(
            "idle_secs"@,
            JsonV::Null,
        ),
    }
}

/// The category under which a request for the status of a model is counted, if it
/// is refused.
pub fn model_status_category(registry: &ModelRegistry, id: &str) -> (r: Option<ApiErrorCategory>)
    ensures
        r == if crate::registry::lacks(registry@, id@) {
            Some(ApiErrorCategory::NotFound)
        } else {
            None
        },
{
    if registry.get(id).is_none() {
        Some(ApiErrorCategory::NotFound)
    } else {
        None
    }
}

/// The status of a model.
pub fn model_status(
    registry: &ModelRegistry,
    id: &str,
    resident: &Vec<Resident>,
    now: u64,
) -> (r: Reply)
    ensures
        r@ == if crate::registry::lacks(registry@, id@) {
            unknown_model(id@)
        } else {
            plain_reply(200, status_body(id@, resident_of(views(resident@), id@), now))
        },
{
    if registry.get(id).is_none() {
        return unknown_model_reply(id);
    }
    let found = find_resident(resident, id);
    let base = Json::object().with("id", Json::string(id)).with(
        "loaded",
        Json::Bool(found.is_some()),
    );
    let body = match found {
        Some(x) => base.with("loaded_at", Json::number(now.saturating_sub(x.loaded_ago))).with(
            "last_used",
            Json::number(now.saturating_sub(x.used_ago)),
        ).with("idle_secs", Json::number(x.used_ago)),
        None => base.with("loaded_at", Json::Null).with("last_used", Json::Null).with(
            "idle_secs",
            Json::Null,
        ),
    };
    Reply::plain(200, body)
}

// ── Laws ─────────────────────────────────────────────────────────────────────

/// The loaded model of an id is the first one that bears it.
proof fn lemma_resident(rs: Seq<Resident>, id: Seq<char>, i: int)
    requires
        0 <= i <= rs.len(),
        forall|k: int| 0 <= k < i ==> (#[trigger] rs[k]).id@ != id,
        i < rs.len() ==> rs[i].id@ == id,
    ensures
        resident_of(views(rs), id) == if i < rs.len() {
            Some(rs[i]@)
        } else {
            None
        },
    decreases rs.len(),
{
    if rs.len() > 0 {
        assert(views(rs)[0] == rs[0]@);
        if i > 0 {
            let rest = rs.subrange(1, rs.len() as int);
            assert(rs[0].id@ != id);
            assert(views(rs).subrange(1, rs.len() as int) =~= views(rest));
            assert forall|k: int| 0 <= k < i - 1 implies (#[trigger] rest[k]).id@ != id by {
                assert(rest[k] == rs[k + 1]);
            }
            lemma_resident(rest, id, i - 1);
        }
    }
}

/// The time that a JSON value gives: so many seconds before now, no earlier than the
/// epoch.
pub open spec fn is_time_before(v: Option<JsonV>, now: u64, ago: u64) -> bool {
    v == Some(
        JsonV::Number(
            decimal(
                (if now >= ago {
                    now - ago
                } else {
                    0
                }) as nat,
            ),
        ),
    )
}

/// The list names every registered model, in the order of the registry, and says of
/// each whether it is loaded; of a loaded one it gives the times of its load and of its
/// last use. `k` is the first loaded model of the id of model `i`, if there is one.
#[verifier::spinoff_prover]
#[verifier::rlimit(40)]
pub proof fn law_list_names_every_model(
    registry: ModelRegistry,
    resident: Vec<Resident>,
    now: u64,
    r: Reply,
    i: int,
    k: int,
)
    requires
        call_ensures(list_models, (&registry, &resident, now), r),
        0 <= i < registry@.len(),
        0 <= k <= resident@.len(),
        forall|j: int| 0 <= j < k ==> (#[trigger] resident@[j]).id@ != registry@[i].id@,
        k < resident@.len() ==> resident@[k].id@ == registry@[i].id@,
    ensures
        r.status == 200,
        r.headers@.len() == 0,
        member_count(r.body@) == 2,
        get(r.body@, "object"@) == Some(JsonV::Str("list"@)),
        get(r.body@, "data"@) matches Some(JsonV::Array(data)) && {
            &&& data.len() == registry@.len()
            &&& member_count(data[i]) == if k < resident@.len() {
                7nat
            } else {
                5nat
            }
            &&& get(data[i], "created"@) == Some(JsonV::Number(decimal(0)))
            &&& get(data[i], "id"@) == Some(JsonV::Str(registry@[i].id@))
            &&& get(data[i], "object"@) == Some(JsonV::Str("model"@))
            &&& get(data[i], "owned_by"@) == Some(JsonV::Str("rmlx"@))
            &&& get(data[i], "loaded"@) == Some(JsonV::Bool(k < resident@.len()))
            &&& k < resident@.len() ==> {
                &&& is_time_before(get(data[i], "loaded_at"@), now, resident@[k].loaded_ago)
                &&& is_time_before(get(data[i], "last_used"@), now, resident@[k].used_ago)
            }
            &&& k == resident@.len() ==> {
                &&& get(data[i], "loaded_at"@) is None
                &&& get(data[i], "last_used"@) is None
            }
        },
{
    broadcast use law_member_reads_back;

    reveal_strlit("object");
    reveal_strlit("data");
    reveal_strlit("id");
    reveal_strlit("created");
    reveal_strlit("owned_by");
    reveal_strlit("loaded");
    reveal_strlit("loaded_at");
    reveal_strlit("last_used");
    assert("object"@.len() == 6);
    assert("data"@.len() == 4);
    assert("id"@.len() == 2);
    assert("created"@.len() == 7);
    assert("owned_by"@.len() == 8);
    assert("loaded"@.len() == 6);
    assert("loaded_at"@.len() == 9);
    assert("last_used"@.len() == 9);
    assert("object"@[0] != "loaded"@[0]);
    assert("loaded_at"@[1] != "last_used"@[1]);
    lemma_resident(resident@, registry@[i].id@, k);
    assert(ids_of(registry@)[i] == registry@[i].id@);
    assert(views(r.headers@).len() == r.headers@.len());
    let one = listed_model(registry@[i].id@, views(resident@), now);
    assert(get(one, "id"@) == Some(JsonV::Str(registry@[i].id@)));
    assert(get(one, "loaded_at"@) is None == (k == resident@.len()));
}

/// The status of a registered model says whether it is loaded, and of a loaded one when
/// it was loaded and used and how long it is idle. A model that is not registered is
/// 404, and counted so.
#[verifier::spinoff_prover]
#[verifier::rlimit(40)]
pub proof fn law_status_is_of_the_model(
    registry: ModelRegistry,
    id: &str,
    resident: Vec<Resident>,
    now: u64,
    r: Reply,
    category: Option<ApiErrorCategory>,
    k: int,
)
    requires
        call_ensures(model_status, (&registry, id, &resident, now), r),
        call_ensures(model_status_category, (&registry, id), category),
        0 <= k <= resident@.len(),
        forall|j: int| 0 <= j < k ==> (#[trigger] resident@[j]).id@ != id@,
        k < resident@.len() ==> resident@[k].id@ == id@,
    ensures
        ({
            let registered = exists|i: int|
                0 <= i < registry@.len() && (#[trigger] registry@[i]).id@ == id@;
            &&& !registered ==> r.status == 404 && category == Some(ApiErrorCategory::NotFound)
            &&& registered ==> {
                &&& r.status == 200
                &&& category is None
                &&& member_count(r.body@) == 5
                &&& get(r.body@, "id"@) == Some(JsonV::Str(id@))
                &&& get(r.body@, "loaded"@) == Some(JsonV::Bool(k < resident@.len()))
                &&& k < resident@.len() ==> {
                    &&& is_time_before(get(r.body@, "loaded_at"@), now, resident@[k].loaded_ago)
                    &&& is_time_before(get(r.body@, "last_used"@), now, resident@[k].used_ago)
                    &&& get(r.body@, "idle_secs"@) == Some(
                        JsonV::Number(decimal(resident@[k].used_ago as nat)),
                    )
                }
                &&& k == resident@.len() ==> {
                    &&& get(r.body@, "loaded_at"@) == Some(JsonV::Null)
                    &&& get(r.body@, "last_used"@) == Some(JsonV::Null)
                    &&& get(r.body@, "idle_secs"@) == Some(JsonV::Null)
                }
            }
        }),
{
    broadcast use law_member_reads_back;

    reveal_strlit("id");
    reveal_strlit("loaded");
    reveal_strlit("loaded_at");
    reveal_strlit("last_used");
    reveal_strlit("idle_secs");
    assert("id"@.len() == 2);
    assert("loaded"@.len() == 6);
    assert("loaded_at"@.len() == 9);
    assert("last_used"@.len() == 9);
    assert("idle_secs"@.len() == 9);
    assert("loaded_at"@[1] != "last_used"@[1]);
    assert("loaded_at"@[0] != "idle_secs"@[0]);
    assert("last_used"@[0] != "idle_secs"@[0]);
    lemma_resident(resident@, id@, k);
}

/// Loading a model on request answers with the model and takes over the request's idle
/// time; a load that failed is 503 with its reason. Unloading a model that is not loaded
/// is 404.
pub proof fn law_load_and_unload_are_answered(
    id: &str,
    load_error: Option<String>,
    keep_alive: Option<i64>,
    loaded: Result<(Option<KeepAlivePolicy>, Reply), Refusal>,
    policy: Option<KeepAlivePolicy>,
    was_loaded: bool,
    unloaded: Reply,
)
    requires
        call_ensures(load_model, (id, &load_error, keep_alive), loaded),
        call_ensures(policy_from_request_field, (keep_alive,), policy),
        call_ensures(unload_reply, (id, was_loaded), unloaded),
    ensures
        loaded is Err == load_error is Some,
        loaded matches Err(f) ==> f.reply.status == 503 && f.category == Some(
            ApiErrorCategory::Upstream,
        ),
        loaded matches Ok((p, reply)) ==> opt_view(p) == opt_view(policy) && reply.status == 200
            && get(reply.body@, "ok"@) == Some(JsonV::Bool(true)) && get(reply.body@, "model"@)
            == Some(JsonV::Str(id@)),
        was_loaded ==> unloaded.status == 200 && get(unloaded.body@, "ok"@) == Some(
            JsonV::Bool(true),
        ),
        !was_loaded ==> unloaded.status == 404 && get(unloaded.body@, "ok"@) == Some(
            JsonV::Bool(false),
        ) && get(unloaded.body@, "message"@) == Some(
            JsonV::Str("model '"@ + id@ + "' is not loaded"@),
        ),
{
    broadcast use law_member_reads_back;

    reveal_strlit("ok");
    reveal_strlit("model");
    reveal_strlit("message");
    assert("ok"@.len() == 2);
    assert("model"@.len() == 5);
    assert("message"@.len() == 7);
}

/// A model can be loaded on request exactly when it is registered; else the answer is
/// 404, and counted so.
pub proof fn law_only_registered_models_are_loaded(
    registry: ModelRegistry,
    id: &str,
    r: Result<(), Refusal>,
)
    requires
        call_ensures(check_load, (&registry, id), r),
    ensures
        r is Ok <==> exists|i: int|
            0 <= i < registry@.len() && (#[trigger] registry@[i]).id@ == id@,
        r matches Err(f) ==> f.reply.status == 404 && f.category == Some(
            ApiErrorCategory::NotFound,
        ),
{
}

/// A model that is not registered is named in the answer; so is one that was loaded.
pub proof fn law_answers_name_the_model(id: &str, unknown: Reply, loaded: Reply)
    requires
        call_ensures(unknown_model_reply, (id,), unknown),
        call_ensures(loaded_reply, (id,), loaded),
    ensures
        unknown.status == 404,
        crate::json::get_str2(unknown.body@, "error"@, "type"@) == Some("model_not_found"@),
        crate::json::get_str2(unknown.body@, "error"@, "message"@) == Some(
            "model '"@ + id@ + "' not found in registry"@,
        ),
        loaded.status == 200,
        get(loaded.body@, "ok"@) == Some(JsonV::Bool(true)),
        get(loaded.body@, "model"@) == Some(JsonV::Str(id@)),
{
    broadcast use law_member_reads_back;

    reveal_strlit("error");
    reveal_strlit("message");
    reveal_strlit("type");
    reveal_strlit("ok");
    reveal_strlit("model");
    assert("error"@.len() == 5);
    assert("message"@.len() == 7);
    assert("type"@.len() == 4);
    assert("ok"@.len() == 2);
    assert("model"@.len() == 5);
    assert("error"@[0] != "model"@[0]);
    assert(get(unknown.body@, "error"@) is Some);
    let e = get(unknown.body@, "error"@)->0;
    assert(get(e, "message"@) is Some);
    assert(get(e, "type"@) is Some);
}

} // verus!
