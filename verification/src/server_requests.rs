//! Answers to the requests of the server. One that stays unanswered makes the
//! creation of a session fail.

use crate::json::{no_fields, Json, JsonView};
use crate::text::same;
use vstd::prelude::*;

verus! {

/// The result for a request of the server: the preferences it asks for, and an
/// empty object for every other method, so that none blocks it.
pub open spec fn answer_view(method: Seq<char>) -> JsonView {
    if method == "session/requestRuntimePreferences"@ {
        no_fields().put("nativeSearchEnhancementsEnabled"@, JsonView::Bool(false))
    } else {
        no_fields()
    }
}

pub fn answer(method: &str, _params: &Json) -> (r: Json)
    ensures
        r@ == answer_view(method@),
{
    if same(method, "session/requestRuntimePreferences") {
        Json::object().with("nativeSearchEnhancementsEnabled", Json::Bool(false))
    } else {
        Json::object()
    }
}

} // verus!
