//! What the analysis of each language can do.

use vstd::prelude::*;

use crate::json::{items_view, no_fields, Json, JsonObject, JsonView};

verus! {

/// What the analysis of a language can do.
pub struct LanguageProfile {
    pub language: Json,
    pub capability_level: String,
    pub supported_features: Json,
    pub unsupported_features: Json,
    pub limitations: Json,
    pub confidence_floor: Json,
    /// The features in detail, where they are known.
    pub features: Option<Json>,
}

/// A profile as it is listed.
pub open spec fn profile_view(profile: LanguageProfile) -> JsonView {
    let base = no_fields().insert("language"@, profile.language@).insert(
        "capability_level"@,
        JsonView::Str(profile.capability_level@),
    ).insert("supported_features"@, profile.supported_features@).insert(
        "unsupported_features"@,
        profile.unsupported_features@,
    ).insert("limitations"@, profile.limitations@).insert(
        "confidence_floor"@,
        profile.confidence_floor@,
    );
    JsonView::Object(
        match profile.features {
            Some(features) => base.insert("features"@, features@),
            None => base,
        },
    )
}

/// The list of profiles.
pub open spec fn profiles_fields(profiles: Seq<LanguageProfile>) -> Map<Seq<char>, JsonView> {
    no_fields().insert("language_count"@, JsonView::Unsigned(profiles.len() as u64)).insert(
        "profiles"@,
        JsonView::Array(Seq::new(profiles.len(), |i: int| profile_view(profiles[i]))),
    )
}

fn profile_to_json(profile: &LanguageProfile) -> (json: Json)
    ensures
        json@ == profile_view(*profile),
{
    let mut object = JsonObject::new();
    object.put("language", profile.language.clone());
    object.put("capability_level", Json::text(profile.capability_level.as_str()));
    object.put("supported_features", profile.supported_features.clone());
    object.put("unsupported_features", profile.unsupported_features.clone());
    object.put("limitations", profile.limitations.clone());
    object.put("confidence_floor", profile.confidence_floor.clone());
    match &profile.features {
        Some(features) => {
            object.put("features", features.clone());
        },
        None => {},
    }
    Json::Object(object)
}

/// The list of profiles.
pub fn language_capabilities_body(profiles: &Vec<LanguageProfile>) -> (body: Json)
    ensures
        body@ == JsonView::Object(profiles_fields(profiles@)),
{
    let mut items: Vec<Json> = Vec::new();
    let mut i: usize = 0;
    while i < profiles.len()
        invariant
            i <= profiles@.len(),
            items@.len() == i,
            forall|j: int| 0 <= j < i ==> (#[trigger] items@[j])@ == profile_view(profiles@[j]),
        decreases profiles@.len() - i,
    {
        items.push(profile_to_json(&profiles[i]));
        i = i + 1;
    }
    proof {
        assert(items_view(items@) =~= Seq::new(
            profiles@.len(),
            |i: int| profile_view(profiles@[i]),
        ));
    }
    let mut object = JsonObject::new();
    object.put("language_count", Json::count(items.len()));
    object.put("profiles", Json::Array(items));
    Json::Object(object)
}

/// Whether a listed value tells a profile.
pub open spec fn tells_profile(listed: JsonView, profile: LanguageProfile) -> bool {
    &&& listed.field("language"@) == Some(profile.language@)
    &&& listed.text_field("capability_level"@) == Some(profile.capability_level@)
    &&& listed.field("supported_features"@) == Some(profile.supported_features@)
    &&& listed.field("unsupported_features"@) == Some(profile.unsupported_features@)
    &&& listed.field("limitations"@) == Some(profile.limitations@)
    &&& listed.field("confidence_floor"@) == Some(profile.confidence_floor@)
    &&& listed.field("features"@) == crate::json::json_view(profile.features)
}

/// Every profile is listed, in order, and they are counted.
pub proof fn law_every_profile_is_listed(profiles: Seq<LanguageProfile>)
    ensures
        ({
            let body = JsonView::Object(profiles_fields(profiles));
            &&& body.unsigned_field("language_count"@) == Some(profiles.len() as u64)
            &&& body.field("profiles"@) matches Some(JsonView::Array(listed)) && listed.len()
                == profiles.len() && forall|i: int|
                0 <= i < listed.len() ==> tells_profile(#[trigger] listed[i], profiles[i])
        }),
{
    reveal_strlit("language_count");
    reveal_strlit("profiles");
    reveal_strlit("language");
    reveal_strlit("capability_level");
    reveal_strlit("supported_features");
    reveal_strlit("unsupported_features");
    reveal_strlit("limitations");
    reveal_strlit("confidence_floor");
    reveal_strlit("features");
    assert("language_count"@.len() != "profiles"@.len());
    assert("language"@.len() != "capability_level"@.len());
    assert("language"@.len() != "supported_features"@.len());
    assert("language"@.len() != "unsupported_features"@.len());
    assert("language"@.len() != "limitations"@.len());
    assert("language"@.len() != "confidence_floor"@.len());
    assert("language"@[0] != "features"@[0]);
    assert("capability_level"@.len() != "supported_features"@.len());
    assert("capability_level"@.len() != "unsupported_features"@.len());
    assert("capability_level"@.len() != "limitations"@.len());
    assert("capability_level"@[1] != "confidence_floor"@[1]);
    assert("capability_level"@.len() != "features"@.len());
    assert("supported_features"@.len() != "unsupported_features"@.len());
    assert("supported_features"@.len() != "limitations"@.len());
    assert("supported_features"@.len() != "confidence_floor"@.len());
    assert("supported_features"@.len() != "features"@.len());
    assert("unsupported_features"@.len() != "limitations"@.len());
    assert("unsupported_features"@.len() != "confidence_floor"@.len());
    assert("unsupported_features"@.len() != "features"@.len());
    assert("limitations"@.len() != "confidence_floor"@.len());
    assert("limitations"@.len() != "features"@.len());
    assert("confidence_floor"@.len() != "features"@.len());
    let body = JsonView::Object(profiles_fields(profiles));
    if let Some(JsonView::Array(listed)) = body.field("profiles"@) {
        assert forall|i: int| 0 <= i < listed.len() implies tells_profile(
            #[trigger] listed[i],
            profiles[i],
        ) by {
            assert(listed[i] == profile_view(profiles[i]));
        }
    }
}

} // verus!
