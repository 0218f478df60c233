//! What is known of the models of a provider.

use vstd::prelude::*;

use crate::json::Json;
use crate::text::{self, ascii_lower, contains_text, opt_text};

verus! {

/// The language that a provider speaks.
#[derive(Debug, Clone, Copy, PartialEq, Eq, Structural)]
pub enum WireApi {
    Responses,
    Chat,
}

/// A provider of models.
#[derive(Debug, PartialEq, Eq)]
pub struct ModelProviderInfo {
    pub name: String,
    pub base_url: Option<String>,
    pub wire_api: WireApi,
}

/// How hard a model thinks.
#[derive(Debug, PartialEq, Eq)]
pub enum ReasoningEffort {
    Low,
    High,
    Max,
    /// Any other effort, by its name.
    Other(String),
}

/// The name of an effort.
pub open spec fn effort_name(effort: ReasoningEffort) -> Seq<char> {
    match effort {
        ReasoningEffort::Low => "low"@,
        ReasoningEffort::High => "high"@,
        ReasoningEffort::Max => "max"@,
        ReasoningEffort::Other(name) => name@,
    }
}

impl ReasoningEffort {
    /// The name of the effort.
    pub fn name(&self) -> (r: String)
        ensures
            r@ == effort_name(*self),
    {
        match self {
            ReasoningEffort::Low => text::owned("low"),
            ReasoningEffort::High => text::owned("high"),
            ReasoningEffort::Max => text::owned("max"),
            ReasoningEffort::Other(name) => name.clone(),
        }
    }
}

/// An effort that a model can be asked for.
#[derive(Debug, PartialEq, Eq)]
pub struct ReasoningEffortPreset {
    pub effort: ReasoningEffort,
    pub description: String,
}

/// What a model can be shown.
#[derive(Debug, Clone, Copy, PartialEq, Eq, Structural)]
pub enum InputModality {
    Text,
    Image,
}

/// Where a model is offered.
#[derive(Debug, Clone, Copy, PartialEq, Eq, Structural)]
pub enum ModelVisibility {
    List,
    Hide,
}

/// How the agent behaves with a model.
#[derive(Debug, PartialEq)]
pub struct ModelBehavior {
    pub model_messages: Option<Json>,
    pub include_skills_usage_instructions: bool,
    pub include_plugin_usage_instructions: bool,
    pub include_apps_usage_instructions: bool,
    pub tool_mode: Option<String>,
    pub multi_agent_version: Option<String>,
    pub multi_agent_reasoning_effort: Option<String>,
}

/// What is known of a model.
#[derive(Debug, PartialEq)]
pub struct ModelInfo {
    pub slug: String,
    pub behavior: ModelBehavior,
    pub visibility: ModelVisibility,
    pub priority: i32,
    pub context_window: Option<i64>,
    pub max_context_window: Option<i64>,
    pub auto_review_model_override: Option<String>,
    pub input_modalities: Vec<InputModality>,
    pub default_reasoning_level: Option<ReasoningEffort>,
    pub supported_reasoning_levels: Vec<ReasoningEffortPreset>,
    pub supports_reasoning_summary_parameter: bool,
    pub used_fallback_model_metadata: bool,
    pub apply_patch_tool_type: Option<String>,
}

/// The efforts that a provider tells of for a model.
#[derive(Debug)]
pub struct CompatibleReasoningEfforts {
    pub support: bool,
    pub valid_efforts: Vec<ReasoningEffort>,
    pub default_effort: Option<ReasoningEffort>,
}

/// What a provider tells of a model.
#[derive(Debug)]
pub struct CompatibleModelInfo {
    pub id: String,
    pub context_length: Option<i64>,
    pub supports_image_in: bool,
    pub supports_reasoning: bool,
    pub reasoning_efforts: Option<CompatibleReasoningEfforts>,
}

/// The seconds that a list of models may take.
pub const MODELS_REFRESH_TIMEOUT_SECONDS: u64 = 5;

/// The seconds that a list of models may take with providers that first have to start.
pub const COMPATIBLE_MODELS_REFRESH_TIMEOUT_SECONDS: u64 = 20;

/// The model whose behavior Kimi's models take over.
pub const KIMI_CODEX_BEHAVIOR_PROFILE: &'static str = "gpt-5.5";

/// The seconds that the list of a provider's models may take.
pub fn models_refresh_timeout(provider_info: &ModelProviderInfo) -> (r: u64)
    ensures
        r == if provider_info.wire_api == WireApi::Chat {
            COMPATIBLE_MODELS_REFRESH_TIMEOUT_SECONDS
        } else {
            MODELS_REFRESH_TIMEOUT_SECONDS
        },
{
    match provider_info.wire_api {
        WireApi::Chat => COMPATIBLE_MODELS_REFRESH_TIMEOUT_SECONDS,
        WireApi::Responses => MODELS_REFRESH_TIMEOUT_SECONDS,
    }
}

/// The provider is Kimi, by its name or by its address.
pub open spec fn is_kimi(name: Seq<char>, base_url: Option<Seq<char>>) -> bool {
    ascii_lower(name) == ascii_lower("kimi"@) || match base_url {
        Some(url) => contains_text(ascii_lower(url), "moonshot.cn"@) || contains_text(
            ascii_lower(url),
            "moonshot.ai"@,
        ),
        None => false,
    }
}

/// Whether the provider is Kimi.
pub fn is_kimi_provider(provider_info: &ModelProviderInfo) -> (r: bool)
    ensures
        r == is_kimi(provider_info.name@, opt_text(provider_info.base_url)),
{
    if text::eq_ignore_ascii_case(provider_info.name.as_str(), "kimi") {
        return true;
    }
    match &provider_info.base_url {
        Some(url) => {
            let url = text::to_ascii_lowercase(url.as_str());
            text::contains(url.as_str(), "moonshot.cn") || text::contains(
                url.as_str(),
                "moonshot.ai",
            )
        },
        None => false,
    }
}

/// The first model under a name.
pub open spec fn first_named(models: Seq<ModelInfo>, slug: Seq<char>) -> Option<ModelInfo>
    decreases models.len(),
{
    if models.len() == 0 {
        None
    } else if models[0].slug@ == slug {
        Some(models[0])
    } else {
        first_named(models.skip(1), slug)
    }
}

/// The behavior that Kimi's models take over, among the models that are known, where they are.
pub fn kimi_codex_behavior_profile(
    provider_info: &ModelProviderInfo,
    known_models: Option<Vec<ModelInfo>>,
) -> (r: Option<ModelInfo>)
    ensures
        r == if is_kimi(provider_info.name@, opt_text(provider_info.base_url))
            && known_models is Some {
            first_named(known_models->0@, KIMI_CODEX_BEHAVIOR_PROFILE@)
        } else {
            None
        },
{
    if !is_kimi_provider(provider_info) {
        return None;
    }
    match known_models {
        Some(models) => {
            let ghost all = models@;
            let mut rest = models;
            while rest.len() > 0
                invariant
                    is_kimi(provider_info.name@, opt_text(provider_info.base_url)),
                    known_models == Some(models),
                    models@ == all,
                    first_named(rest@, KIMI_CODEX_BEHAVIOR_PROFILE@) == first_named(
                        all,
                        KIMI_CODEX_BEHAVIOR_PROFILE@,
                    ),
                decreases rest@.len(),
            {
                let ghost before = rest@;
                let model = rest.remove(0);
                assert(rest@ =~= before.skip(1));
                if text::str_eq(model.slug.as_str(), KIMI_CODEX_BEHAVIOR_PROFILE) {
                    return Some(model);
                }
            }
            None
        },
        None => None,
    }
}

/// The two behaviors are the same.
pub open spec fn same_behavior(a: ModelBehavior, b: ModelBehavior) -> bool {
    &&& match (a.model_messages, b.model_messages) {
        (Some(x), Some(y)) => x@ == y@,
        (None, None) => true,
        _ => false,
    }
    &&& a.include_skills_usage_instructions == b.include_skills_usage_instructions
    &&& a.include_plugin_usage_instructions == b.include_plugin_usage_instructions
    &&& a.include_apps_usage_instructions == b.include_apps_usage_instructions
    &&& a.tool_mode == b.tool_mode
    &&& a.multi_agent_version == b.multi_agent_version
    &&& a.multi_agent_reasoning_effort == b.multi_agent_reasoning_effort
}

impl ModelBehavior {
    /// The same behavior.
    pub fn duplicate(&self) -> (r: ModelBehavior)
        ensures
            same_behavior(r, *self),
    {
        ModelBehavior {
            model_messages: match &self.model_messages {
                Some(messages) => Some(messages.duplicate()),
                None => None,
            },
            include_skills_usage_instructions: self.include_skills_usage_instructions,
            include_plugin_usage_instructions: self.include_plugin_usage_instructions,
            include_apps_usage_instructions: self.include_apps_usage_instructions,
            tool_mode: self.tool_mode.clone(),
            multi_agent_version: self.multi_agent_version.clone(),
            multi_agent_reasoning_effort: self.multi_agent_reasoning_effort.clone(),
        }
    }
}

/// Each preset is for an effort, in order, under its name.
pub open spec fn presets_are(
    presets: Seq<ReasoningEffortPreset>,
    efforts: Seq<ReasoningEffort>,
) -> bool {
    &&& presets.len() == efforts.len()
    &&& forall|i: int|
        0 <= i < efforts.len() ==> (#[trigger] presets[i]).effort == efforts[i]
            && presets[i].description@ == effort_name(efforts[i])
}

fn make_presets(efforts: Vec<ReasoningEffort>) -> (r: Vec<ReasoningEffortPreset>)
    ensures
        presets_are(r@, efforts@),
{
    let ghost all = efforts@;
    let mut rest = efforts;
    let mut presets: Vec<ReasoningEffortPreset> = Vec::new();
    while rest.len() > 0
        invariant
            presets@.len() <= all.len(),
            rest@ == all.skip(presets@.len() as int),
            presets_are(presets@, all.take(presets@.len() as int)),
        decreases rest@.len(),
    {
        let effort = rest.remove(0);
        assert(rest@ =~= all.skip(presets@.len() as int + 1));
        presets.push(ReasoningEffortPreset { description: effort.name(), effort });
    }
    assert(all.take(presets@.len() as int) =~= all);
    presets
}

/// The efforts of a model of which no others are told.
pub open spec fn usual_efforts() -> Seq<ReasoningEffort> {
    seq![ReasoningEffort::Low, ReasoningEffort::High, ReasoningEffort::Max]
}

/// The efforts that are known of a model are those that its provider tells of, or the usual ones
/// where it reasons and nothing is told, or none.
pub open spec fn efforts_are(r: ModelInfo, model: CompatibleModelInfo) -> bool {
    if model.supports_reasoning {
        match model.reasoning_efforts {
            Some(efforts) if efforts.support => r.default_reasoning_level == efforts.default_effort
                && presets_are(r.supported_reasoning_levels@, efforts.valid_efforts@),
            _ => r.default_reasoning_level == Some(ReasoningEffort::High) && presets_are(
                r.supported_reasoning_levels@,
                usual_efforts(),
            ),
        }
    } else {
        r.default_reasoning_level is None && r.supported_reasoning_levels@.len() == 0
    }
}

/// What is known of a model that its provider tells of, on top of what is known of every model
/// of its name.
pub open spec fn is_compatible_model(
    r: ModelInfo,
    model: CompatibleModelInfo,
    base: ModelInfo,
    priority: int,
    profile: Option<ModelInfo>,
) -> bool {
    &&& r.slug == base.slug
    &&& same_behavior(
        r.behavior,
        match profile {
            Some(profile) => profile.behavior,
            None => base.behavior,
        },
    )
    &&& r.visibility == ModelVisibility::List
    &&& r.priority == if priority > i32::MAX {
        i32::MAX as int
    } else {
        priority
    }
    &&& r.context_window == model.context_length
    &&& r.max_context_window == model.context_length
    &&& opt_text(r.auto_review_model_override) == Some(model.id@)
    &&& r.input_modalities@ == if model.supports_image_in {
        seq![InputModality::Text, InputModality::Image]
    } else {
        seq![InputModality::Text]
    }
    &&& efforts_are(r, model)
    &&& r.supports_reasoning_summary_parameter == base.supports_reasoning_summary_parameter
    &&& r.used_fallback_model_metadata == base.used_fallback_model_metadata
    &&& r.apply_patch_tool_type == base.apply_patch_tool_type
}

/// The profile behind a reference.
pub open spec fn profile_of(profile: Option<&ModelInfo>) -> Option<ModelInfo> {
    match profile {
        Some(profile) => Some(*profile),
        None => None,
    }
}

/// What is known of a model, given what its provider tells, what is known of every model of its
/// name, its place in the list, and the behavior that it takes over.
pub fn compatible_model_info(
    model: CompatibleModelInfo,
    base: ModelInfo,
    priority: usize,
    behavior_profile: Option<&ModelInfo>,
) -> (r: ModelInfo)
    ensures
        is_compatible_model(
            r,
            model,
            base,
            priority as int,
            profile_of(behavior_profile),
        ),
{
    let behavior = match behavior_profile {
        Some(profile) => profile.behavior.duplicate(),
        None => base.behavior,
    };
    let mut input_modalities: Vec<InputModality> = Vec::new();
    input_modalities.push(InputModality::Text);
    if model.supports_image_in {
        input_modalities.push(InputModality::Image);
        assert(input_modalities@ =~= seq![InputModality::Text, InputModality::Image]);
    } else {
        assert(input_modalities@ =~= seq![InputModality::Text]);
    }
    let (default_reasoning_level, supported_reasoning_levels) = if model.supports_reasoning {
        match model.reasoning_efforts {
            Some(efforts) if efforts.support => (
                efforts.default_effort,
                make_presets(efforts.valid_efforts),
            ),
            _ => {
                let mut efforts: Vec<ReasoningEffort> = Vec::new();
                efforts.push(ReasoningEffort::Low);
                efforts.push(ReasoningEffort::High);
                efforts.push(ReasoningEffort::Max);
                assert(efforts@ =~= usual_efforts());
                (Some(ReasoningEffort::High), make_presets(efforts))
            },
        }
    } else {
        (None, Vec::new())
    };
    let priority: i32 = if priority > i32::MAX as usize {
        i32::MAX
    } else {
        priority as i32
    };
    ModelInfo {
        slug: base.slug,
        behavior,
        visibility: ModelVisibility::List,
        priority,
        context_window: model.context_length,
        max_context_window: model.context_length,
        auto_review_model_override: Some(model.id),
        input_modalities,
        default_reasoning_level,
        supported_reasoning_levels,
        supports_reasoning_summary_parameter: base.supports_reasoning_summary_parameter,
        used_fallback_model_metadata: base.used_fallback_model_metadata,
        apply_patch_tool_type: base.apply_patch_tool_type,
    }
}

/// What is known of the models that a provider tells of, each with what is known of every model of
/// its name. Those that come first are offered first.
pub fn compatible_models(
    models: Vec<(CompatibleModelInfo, ModelInfo)>,
    behavior_profile: Option<&ModelInfo>,
) -> (r: Vec<ModelInfo>)
    ensures
        r@.len() == models@.len(),
        forall|i: int|
            0 <= i < r@.len() ==> is_compatible_model(
                #[trigger] r@[i],
                models@[i].0,
                models@[i].1,
                i,
                profile_of(behavior_profile),
            ),
{
    let ghost all = models@;
    let mut rest = models;
    let mut infos: Vec<ModelInfo> = Vec::new();
    while rest.len() > 0
        invariant
            infos@.len() + rest@.len() == all.len(),
            rest@ == all.skip(infos@.len() as int),
            forall|i: int|
                0 <= i < infos@.len() ==> is_compatible_model(
                    #[trigger] infos@[i],
                    all[i].0,
                    all[i].1,
                    i,
                    profile_of(behavior_profile),
                ),
        decreases rest@.len(),
    {
        let (model, base) = rest.remove(0);
        assert(rest@ =~= all.skip(infos@.len() as int + 1));
        let priority: usize = infos.len();
        infos.push(compatible_model_info(model, base, priority, behavior_profile));
    }
    infos
}

// ---------------------------------------------------------------------------------------------
// Laws
// ---------------------------------------------------------------------------------------------

/// A provider's models are offered in the order in which it tells of them.
pub proof fn models_keep_their_order(
    infos: Seq<ModelInfo>,
    models: Seq<(CompatibleModelInfo, ModelInfo)>,
    profile: Option<ModelInfo>,
    i: int,
    j: int,
)
    requires
        forall|k: int|
            0 <= k < infos.len() ==> is_compatible_model(
                #[trigger] infos[k],
                models[k].0,
                models[k].1,
                k,
                profile,
            ),
        0 <= i <= j < infos.len(),
    ensures
        infos[i].priority <= infos[j].priority,
{
}

/// The efforts have their names.
pub proof fn efforts_have_their_names(name: String)
    ensures
        effort_name(ReasoningEffort::Low) == "low"@,
        effort_name(ReasoningEffort::High) == "high"@,
        effort_name(ReasoningEffort::Max) == "max"@,
        effort_name(ReasoningEffort::Other(name)) == name@,
{
}

/// Lists of models may take five seconds, or twenty with providers that speak the other language.
/// Kimi's models behave as those of one name.
pub proof fn limits_are_what_they_are()
    ensures
        MODELS_REFRESH_TIMEOUT_SECONDS == 5,
        COMPATIBLE_MODELS_REFRESH_TIMEOUT_SECONDS == 20,
        KIMI_CODEX_BEHAVIOR_PROFILE@ == "gpt-5.5"@,
{
}

/// A provider is Kimi by its name, in letters of any size, or by an address of its maker, and by
/// nothing else.
pub proof fn kimi_is_known_by_its_name_or_address(
    name: Seq<char>,
    url: Seq<char>,
    before: Seq<char>,
    behind: Seq<char>,
)
    ensures
        ascii_lower(name) == ascii_lower("kimi"@) ==> is_kimi(name, None) && is_kimi(
            name,
            Some(url),
        ),
        ascii_lower(url) == before + "moonshot.cn"@ + behind || ascii_lower(url) == before
            + "moonshot.ai"@ + behind ==> is_kimi(name, Some(url)),
        is_kimi(name, None) ==> ascii_lower(name) == ascii_lower("kimi"@),
        is_kimi(name, Some(url)) && ascii_lower(name) != ascii_lower("kimi"@) ==> contains_text(
            ascii_lower(url),
            "moonshot.cn"@,
        ) || contains_text(ascii_lower(url), "moonshot.ai"@),
{
    let low = ascii_lower(url);
    if low == before + "moonshot.cn"@ + behind {
        assert(low.subrange(before.len() as int, before.len() as int + "moonshot.cn"@.len())
            =~= "moonshot.cn"@);
    }
    if low == before + "moonshot.ai"@ + behind {
        assert(low.subrange(before.len() as int, before.len() as int + "moonshot.ai"@.len())
            =~= "moonshot.ai"@);
    }
}

/// The model that is found under a name has that name, and none before it does; there is none
/// where no model has it.
pub proof fn the_first_of_a_name_is_found(models: Seq<ModelInfo>, slug: Seq<char>)
    ensures
        match first_named(models, slug) {
            Some(model) => model.slug@ == slug && exists|i: int|
                0 <= i < models.len() && #[trigger] models[i] == model && forall|j: int|
                    0 <= j < i ==> (#[trigger] models[j]).slug@ != slug,
            None => forall|i: int| 0 <= i < models.len() ==> (#[trigger] models[i]).slug@ != slug,
        },
    decreases models.len(),
{
    if models.len() > 0 {
        let rest = models.skip(1);
        if models[0].slug@ != slug {
            the_first_of_a_name_is_found(rest, slug);
            match first_named(rest, slug) {
                Some(model) => {
                    let i = choose|i: int|
                        0 <= i < rest.len() && #[trigger] rest[i] == model && forall|j: int|
                            0 <= j < i ==> (#[trigger] rest[j]).slug@ != slug;
                    assert(models[i + 1] == model);
                    assert forall|j: int| 0 <= j < i + 1 implies (
                    #[trigger] models[j]).slug@ != slug by {
                        if j > 0 {
                            assert(rest[j - 1] == models[j]);
                        }
                    }
                },
                None => {
                    assert forall|i: int| 0 <= i < models.len() implies (
                    #[trigger] models[i]).slug@ != slug by {
                        if i > 0 {
                            assert(rest[i - 1] == models[i]);
                        }
                    }
                },
            }
        } else {
            assert(models[0] == first_named(models, slug)->0);
        }
    }
}

/// A model that a provider tells of keeps its name and what is known of every model of that name,
/// is listed at its place, has the window that is told and reviews for itself. It behaves like the
/// profile where there is one.
pub proof fn told_models_are_known(
    r: ModelInfo,
    model: CompatibleModelInfo,
    base: ModelInfo,
    priority: usize,
    profile: Option<ModelInfo>,
)
    requires
        is_compatible_model(r, model, base, priority as int, profile),
    ensures
        r.slug@ == base.slug@,
        r.visibility is List,
        priority <= i32::MAX ==> r.priority == priority,
        priority > i32::MAX ==> r.priority == i32::MAX,
        r.context_window == model.context_length,
        r.max_context_window == model.context_length,
        r.auto_review_model_override is Some,
        r.auto_review_model_override->0@ == model.id@,
        r.input_modalities@[0] is Text,
        model.supports_image_in ==> r.input_modalities@.len() == 2 && r.input_modalities@[1]
            is Image,
        !model.supports_image_in ==> r.input_modalities@.len() == 1,
        r.supports_reasoning_summary_parameter == base.supports_reasoning_summary_parameter,
        r.used_fallback_model_metadata == base.used_fallback_model_metadata,
        r.apply_patch_tool_type == base.apply_patch_tool_type,
        ({
            let source = if profile is Some {
                profile->0.behavior
            } else {
                base.behavior
            };
            &&& r.behavior.include_skills_usage_instructions
                == source.include_skills_usage_instructions
            &&& r.behavior.include_plugin_usage_instructions
                == source.include_plugin_usage_instructions
            &&& r.behavior.include_apps_usage_instructions
                == source.include_apps_usage_instructions
            &&& r.behavior.tool_mode == source.tool_mode
            &&& r.behavior.multi_agent_version == source.multi_agent_version
            &&& r.behavior.multi_agent_reasoning_effort == source.multi_agent_reasoning_effort
            &&& r.behavior.model_messages is Some <==> source.model_messages is Some
            &&& r.behavior.model_messages is Some ==> r.behavior.model_messages->0@
                == source.model_messages->0@
        }),
{
}

/// A model that reasons has the efforts that its provider tells of, in order, each under its name,
/// or else low, high and max with high to begin with; one that does not reason has none.
pub proof fn told_efforts_are_known(r: ModelInfo, model: CompatibleModelInfo, i: int)
    requires
        efforts_are(r, model),
    ensures
        ({
            let levels = r.supported_reasoning_levels@;
            let told = model.reasoning_efforts is Some && model.reasoning_efforts->0.support;
            &&& !model.supports_reasoning ==> levels.len() == 0 && r.default_reasoning_level
                is None
            &&& model.supports_reasoning && !told ==> levels.len() == 3 && levels[0].effort is Low
                && levels[1].effort is High && levels[2].effort is Max
                && r.default_reasoning_level == Some(ReasoningEffort::High)
                && levels[0].description@ == "low"@ && levels[1].description@ == "high"@
                && levels[2].description@ == "max"@
            &&& model.supports_reasoning && told ==> levels.len()
                == model.reasoning_efforts->0.valid_efforts@.len() && r.default_reasoning_level
                == model.reasoning_efforts->0.default_effort
            &&& model.supports_reasoning && told && 0 <= i < levels.len() ==> levels[i].effort
                == model.reasoning_efforts->0.valid_efforts@[i] && levels[i].description@
                == effort_name(model.reasoning_efforts->0.valid_efforts@[i])
        }),
{
}

} // verus!
