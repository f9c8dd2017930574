//! The user's configuration.

use vstd::prelude::*;
use crate::json;
use crate::json::{get, parse_stored, print_pretty, Json, JsonView};

verus! {

/// The configuration that a file's text holds: what is missing or broken counts
/// as an empty one.
pub open spec fn config_of(text: Option<Seq<char>>) -> JsonView {
    match text {
        Some(t) => object_or_empty(json::parsed(t)),
        None => JsonView::object(),
    }
}

/// A value that is an object, else the object without members.
pub open spec fn object_or_empty(v: Option<JsonView>) -> JsonView {
    match v {
        Some(JsonView::Obj(m)) => JsonView::Obj(m),
        _ => JsonView::object(),
    }
}

/// A value that is an object, else the object without members.
pub fn as_config(v: Option<Json>) -> (r: Json)
    ensures
        r@ == object_or_empty(crate::session::owned_view(v)),
{
    match v {
        Some(Json::Obj(o)) => Json::Obj(o),
        _ => Json::object(),
    }
}

/// The configuration that a file's text holds. `text` is none where the file
/// cannot be read.
pub fn load(text: Option<&str>) -> (r: Json)
    ensures
        r@ == config_of(crate::interaction::opt_str(text)),
{
    match text {
        Some(t) => as_config(parse_stored(t)),
        None => Json::object(),
    }
}

/// A configuration after a patch: the members of the patch are set, all others
/// stay. A patch that is no object changes nothing.
pub open spec fn patched(config: JsonView, patch: JsonView) -> JsonView {
    match patch {
        JsonView::Obj(p) => match config {
            JsonView::Obj(c) => JsonView::Obj(json::put_all(c, p)),
            _ => config,
        },
        _ => config,
    }
}

/// A configuration after a patch.
pub fn apply_patch(config: Json, patch: &Json) -> (r: Json)
    ensures
        r@ == patched(config@, patch@),
{
    match patch {
        Json::Obj(p) => match config {
            Json::Obj(mut c) => {
                c.put_all(p);
                Json::Obj(c)
            },
            other => other,
        },
        _ => config,
    }
}

/// The configuration that is written after a patch to the one that a file's text
/// holds.
pub fn save_patch(text: Option<&str>, patch: &Json) -> (r: Json)
    ensures
        r@ == patched(config_of(crate::interaction::opt_str(text)), patch@),
{
    apply_patch(load(text), patch)
}

/// The text of the file that holds a configuration. A plain one is loaded from it as
/// it was.
pub fn write(config: &Json) -> (r: String)
    ensures
        r@ == json::pretty(config@),
        config@ is Obj && json::plain(config@, json::MAX_DEPTH as int) ==> config_of(Some(r@))
            == config@,
{
    print_pretty(config)
}

/// Whether the gateway is on: it is, unless the configuration says that it is
/// not.
pub open spec fn enabled(config: JsonView) -> bool {
    config.field("gatewayEnabled"@) != Some(JsonView::Bool(false))
}

/// Whether the gateway is on.
pub fn gateway_enabled(config: &Json) -> (r: bool)
    ensures
        r == enabled(config@),
{
    match get(config, "gatewayEnabled") {
        Some(Json::Bool(b)) => *b,
        _ => true,
    }
}

/// Saving one setting leaves every other as it was, and the setting reads back.
pub proof fn law_saving_keeps_other_settings(config: JsonView, key: Seq<char>, v: JsonView, other: Seq<char>)
    requires
        config is Obj,
    ensures
        ({
            let next = patched(config, JsonView::object().with(key, v));
            &&& next.field(key) == Some(v)
            &&& other != key ==> next.field(other) == config.field(other)
        }),
{
    let c = config->Obj_0;
    let p = json::Members::empty().push((key, v));
    assert(JsonView::object().with(key, v) == JsonView::Obj(p));
    assert(p.drop_last() =~= json::Members::empty());
    assert(json::put_all(c, json::Members::empty()) == c);
    assert(json::put_all(c, p) == json::put(c, key, v));
    json::law_put_then_lookup(c, key, v, other);
}

/// The gateway runs unless it is switched off.
pub proof fn law_the_gateway_runs_unless_switched_off(config: JsonView, on: bool)
    ensures
        config.field("gatewayEnabled"@) == Some(JsonView::Bool(on)) ==> enabled(config) == on,
        config.field("gatewayEnabled"@) is None ==> enabled(config),
        enabled(JsonView::Obj(Seq::empty())),
{
    json::lemma_position(Seq::empty(), "gatewayEnabled"@);
}

/// What is no object counts as one without settings, and a patch that is none changes
/// nothing.
pub proof fn law_only_objects_hold_settings(v: JsonView, config: JsonView)
    ensures
        v is Obj ==> object_or_empty(Some(v)) == v,
        !(v is Obj) ==> object_or_empty(Some(v)) == JsonView::Obj(Seq::empty()),
        object_or_empty(None) == JsonView::Obj(Seq::empty()),
        config_of(None) == JsonView::Obj(Seq::empty()),
        !(v is Obj) ==> patched(config, v) == config,
{
}

/// What a patch says is set.
pub proof fn law_what_a_patch_says_is_set(config: JsonView, key: Seq<char>, v: JsonView)
    requires
        config is Obj,
    ensures
        patched(config, JsonView::Obj(seq![(key, v)])).field(key) == Some(v),
{
    let patch = seq![(key, v)];
    let c = config->Obj_0;
    assert(patch.drop_last() =~= Seq::empty());
    assert(patch.last() == (key, v));
    assert(json::put_all(c, patch.drop_last()) == c);
    assert(json::put_all(c, patch) == json::put(c, key, v));
    json::law_put_then_lookup(c, key, v, key);
}

} // verus!
