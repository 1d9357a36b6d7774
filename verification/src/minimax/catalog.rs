//! The models that are offered where no other catalog is configured. Each of
//! them takes texts and images.
use crate::text;
use crate::text_laws;
use vstd::prelude::*;

verus! {

pub const MINIMAX_M3_CONTEXT_WINDOW: i64 = 512_000;

pub const MINIMAX_M2_7_CONTEXT_WINDOW: i64 = 200_000;

pub const MINIMAX_M2_5_CONTEXT_WINDOW: i64 = 100_000;

/// What a model can take.
#[derive(Debug, Clone, Copy, PartialEq, Eq, Structural)]
pub enum InputModality {
    Text,
    Image,
}

/// How much a model reasons.
#[derive(Debug, PartialEq, Eq)]
pub enum ReasoningEffort {
    NoReasoning,
    Minimal,
    Low,
    Medium,
    High,
    XHigh,
    Custom(String),
}

/// An effort that a model offers.
#[derive(Debug, PartialEq, Eq)]
pub struct ReasoningEffortPreset {
    pub effort: ReasoningEffort,
    pub description: String,
}

/// How a model runs commands.
#[derive(Debug, Clone, Copy, PartialEq, Eq, Structural)]
pub enum ConfigShellToolType {
    ShellCommand,
}

/// Where a model is shown.
#[derive(Debug, Clone, Copy, PartialEq, Eq, Structural)]
pub enum ModelVisibility {
    List,
}

/// What a model tells of its reasoning.
#[derive(Debug, Clone, Copy, PartialEq, Eq, Structural)]
pub enum ReasoningSummary {
    NoSummary,
}

/// What a model's web search gives.
#[derive(Debug, Clone, Copy, PartialEq, Eq, Structural)]
pub enum WebSearchToolType {
    Text,
}

/// How long the output of a tool may be.
#[derive(Debug, Clone, Copy, PartialEq, Eq, Structural)]
pub enum TruncationPolicyConfig {
    Tokens(i64),
}

/// What is known of a model.
#[derive(Debug, PartialEq, Eq)]
pub struct ModelInfo {
    pub slug: String,
    pub display_name: String,
    pub description: Option<String>,
    pub default_reasoning_level: Option<ReasoningEffort>,
    pub supported_reasoning_levels: Vec<ReasoningEffortPreset>,
    pub shell_type: ConfigShellToolType,
    pub visibility: ModelVisibility,
    pub supported_in_api: bool,
    pub priority: i32,
    pub additional_speed_tiers: Vec<String>,
    pub service_tiers: Vec<String>,
    pub default_service_tier: Option<String>,
    pub availability_nux: Option<String>,
    pub upgrade: Option<String>,
    pub base_instructions: String,
    pub model_messages: Option<String>,
    pub supports_reasoning_summaries: bool,
    pub default_reasoning_summary: ReasoningSummary,
    pub support_verbosity: bool,
    pub default_verbosity: Option<String>,
    pub apply_patch_tool_type: Option<String>,
    pub web_search_tool_type: WebSearchToolType,
    pub truncation_policy: TruncationPolicyConfig,
    pub supports_parallel_tool_calls: bool,
    pub supports_image_detail_original: bool,
    pub context_window: Option<i64>,
    pub max_context_window: Option<i64>,
    pub auto_compact_token_limit: Option<i64>,
    pub effective_context_window_percent: i64,
    pub experimental_supported_tools: Vec<String>,
    pub input_modalities: Vec<InputModality>,
    pub used_fallback_model_metadata: bool,
    pub supports_search_tool: bool,
    pub use_responses_lite: bool,
    pub auto_review_model_override: Option<String>,
    pub tool_mode: Option<String>,
    pub multi_agent_version: Option<String>,
}

/// A catalog of models.
#[derive(Debug, PartialEq, Eq)]
pub struct ModelsResponse {
    pub models: Vec<ModelInfo>,
}

/// A number as a text.
pub open spec fn number_text(n: int) -> Seq<char> {
    if n < 0 {
        "-"@ + text::decimal((-n) as nat)
    } else {
        text::decimal(n as nat)
    }
}

/// The whole thousands in a number, towards zero.
pub open spec fn thousands(n: int) -> int {
    if n < 0 {
        -((-n) / 1000)
    } else {
        n / 1000
    }
}

/// What a model's catalog entry says of its context window.
pub open spec fn window_description(context_window: int) -> Seq<char> {
    "MiniMax model - "@ + number_text(thousands(context_window)) + "k context window"@
}

/// What is said of an effort.
pub open spec fn effort_description(effort: ReasoningEffort) -> Seq<char> {
    match effort {
        ReasoningEffort::NoReasoning => "No reasoning"@,
        ReasoningEffort::Minimal => "Minimal reasoning"@,
        ReasoningEffort::Low => "Fast responses with lighter reasoning"@,
        ReasoningEffort::Medium => "Balances speed and reasoning depth for everyday tasks"@,
        ReasoningEffort::High => "Greater reasoning depth for complex problems"@,
        ReasoningEffort::XHigh => "Extra high reasoning depth for complex problems"@,
        ReasoningEffort::Custom(_) => "Model-specific reasoning effort"@,
    }
}

/// Whether a preset is that of an effort.
pub open spec fn is_preset(preset: ReasoningEffortPreset, effort: ReasoningEffort) -> bool {
    preset.effort == effort && preset.description@ == effort_description(effort)
}

/// Whether a catalog entry is that of a MiniMax model.
pub open spec fn is_minimax_model(
    model: ModelInfo,
    slug: Seq<char>,
    display_name: Seq<char>,
    priority: i32,
    context_window: i64,
    level: ReasoningEffort,
    modalities: Seq<InputModality>,
) -> bool {
    &&& model.slug@ == slug
    &&& model.display_name@ == display_name
    &&& model.description is Some
    &&& model.description->0@ == window_description(context_window as int)
    &&& model.default_reasoning_level == Some(level)
    &&& model.supported_reasoning_levels@.len() == 3
    &&& is_preset(model.supported_reasoning_levels@[0], ReasoningEffort::Low)
    &&& is_preset(model.supported_reasoning_levels@[1], ReasoningEffort::Medium)
    &&& is_preset(model.supported_reasoning_levels@[2], ReasoningEffort::High)
    &&& model.priority == priority
    &&& model.context_window == Some(context_window)
    &&& model.max_context_window == Some(context_window)
    &&& model.input_modalities@ == modalities
    &&& has_minimax_defaults(model)
}

/// Whether a catalog entry has what all MiniMax models have in common.
pub open spec fn has_minimax_defaults(model: ModelInfo) -> bool {
    &&& model.shell_type == ConfigShellToolType::ShellCommand
    &&& model.visibility == ModelVisibility::List
    &&& model.supported_in_api
    &&& model.additional_speed_tiers@.len() == 0
    &&& model.service_tiers@.len() == 0
    &&& model.default_service_tier is None
    &&& model.availability_nux is None
    &&& model.upgrade is None
    &&& model.base_instructions@ == ""@
    &&& model.model_messages is None
    &&& !model.supports_reasoning_summaries
    &&& model.default_reasoning_summary == ReasoningSummary::NoSummary
    &&& !model.support_verbosity
    &&& model.default_verbosity is None
    &&& model.apply_patch_tool_type is None
    &&& model.web_search_tool_type == WebSearchToolType::Text
    &&& model.truncation_policy == TruncationPolicyConfig::Tokens(10_000)
    &&& model.supports_parallel_tool_calls
    &&& !model.supports_image_detail_original
    &&& model.auto_compact_token_limit is None
    &&& model.effective_context_window_percent == 95
    &&& model.experimental_supported_tools@.len() == 0
    &&& !model.used_fallback_model_metadata
    &&& !model.supports_search_tool
    &&& !model.use_responses_lite
    &&& model.auto_review_model_override is None
    &&& model.tool_mode is None
    &&& model.multi_agent_version is None
}

/// What every model of the catalog takes.
pub open spec fn default_modalities() -> Seq<InputModality> {
    seq![InputModality::Text, InputModality::Image]
}

/// Whether a catalog is the one that is offered by default.
pub open spec fn is_static_catalog(catalog: ModelsResponse) -> bool {
    &&& catalog.models@.len() == 6
    &&& is_minimax_model(
        catalog.models@[0],
        "MiniMax-M3"@,
        "MiniMax M3"@,
        0,
        MINIMAX_M3_CONTEXT_WINDOW,
        ReasoningEffort::High,
        default_modalities(),
    )
    &&& is_minimax_model(
        catalog.models@[1],
        "MiniMax-M3-highspeed"@,
        "MiniMax M3 (High Speed)"@,
        1,
        MINIMAX_M3_CONTEXT_WINDOW,
        ReasoningEffort::High,
        default_modalities(),
    )
    &&& is_minimax_model(
        catalog.models@[2],
        "MiniMax-M2.7"@,
        "MiniMax M2.7"@,
        2,
        MINIMAX_M2_7_CONTEXT_WINDOW,
        ReasoningEffort::High,
        default_modalities(),
    )
    &&& is_minimax_model(
        catalog.models@[3],
        "MiniMax-M2.7-highspeed"@,
        "MiniMax M2.7 (High Speed)"@,
        3,
        MINIMAX_M2_7_CONTEXT_WINDOW,
        ReasoningEffort::High,
        default_modalities(),
    )
    &&& is_minimax_model(
        catalog.models@[4],
        "MiniMax-M2.5"@,
        "MiniMax M2.5"@,
        4,
        MINIMAX_M2_5_CONTEXT_WINDOW,
        ReasoningEffort::Medium,
        default_modalities(),
    )
    &&& is_minimax_model(
        catalog.models@[5],
        "MiniMax-M2.5-highspeed"@,
        "MiniMax M2.5 (High Speed)"@,
        5,
        MINIMAX_M2_5_CONTEXT_WINDOW,
        ReasoningEffort::Medium,
        default_modalities(),
    )
}

/// The preset of an effort.
pub fn reasoning_effort_preset(effort: ReasoningEffort) -> (r: ReasoningEffortPreset)
    ensures
        is_preset(r, effort),
{
    let description: &str = match &effort {
        ReasoningEffort::NoReasoning => "No reasoning",
        ReasoningEffort::Minimal => "Minimal reasoning",
        ReasoningEffort::Low => "Fast responses with lighter reasoning",
        ReasoningEffort::Medium => "Balances speed and reasoning depth for everyday tasks",
        ReasoningEffort::High => "Greater reasoning depth for complex problems",
        ReasoningEffort::XHigh => "Extra high reasoning depth for complex problems",
        ReasoningEffort::Custom(_) => "Model-specific reasoning effort",
    };
    ReasoningEffortPreset { effort, description: description.to_string() }
}

/// What a model's catalog entry says of its context window.
fn describe_window(context_window: i64) -> (r: String)
    ensures
        r@ == window_description(context_window as int),
{
    let mut out: String = "MiniMax model - ".to_string();
    if context_window < 0 {
        let magnitude: u64 = (-(context_window as i128)) as u64 / 1000;
        if magnitude > 0 {
            out.append("-");
        }
        out.append(text::decimal_text(magnitude).as_str());
        proof {
            let whole = thousands(context_window as int);
            assert(magnitude == -whole);
            assert(out@ =~= "MiniMax model - "@ + number_text(whole));
        }
    } else {
        out.append(text::decimal_text(context_window as u64 / 1000).as_str());
        assert(out@ =~= "MiniMax model - "@ + number_text(thousands(context_window as int)));
    }
    out.append("k context window");
    out
}

/// The catalog entry of a MiniMax model.
pub fn minimax_model(
    slug: &str,
    display_name: &str,
    priority: i32,
    context_window: i64,
    default_reasoning_level: ReasoningEffort,
    input_modalities: &[InputModality],
) -> (r: ModelInfo)
    ensures
        is_minimax_model(
            r,
            slug@,
            display_name@,
            priority,
            context_window,
            default_reasoning_level,
            input_modalities@,
        ),
{
    let mut modalities: Vec<InputModality> = Vec::new();
    let n: usize = input_modalities.len();
    let mut i: usize = 0;
    while i < n
        invariant
            n == input_modalities@.len(),
            i <= n,
            modalities@ == input_modalities@.take(i as int),
        decreases n - i,
    {
        modalities.push(input_modalities[i]);
        i += 1;
    }
    assert(modalities@ =~= input_modalities@);
    ModelInfo {
        slug: slug.to_string(),
        display_name: display_name.to_string(),
        description: Some(describe_window(context_window)),
        default_reasoning_level: Some(default_reasoning_level),
        supported_reasoning_levels: vec![
            reasoning_effort_preset(ReasoningEffort::Low),
            reasoning_effort_preset(ReasoningEffort::Medium),
            reasoning_effort_preset(ReasoningEffort::High),
        ],
        shell_type: ConfigShellToolType::ShellCommand,
        visibility: ModelVisibility::List,
        supported_in_api: true,
        priority,
        additional_speed_tiers: Vec::new(),
        service_tiers: Vec::new(),
        default_service_tier: None,
        availability_nux: None,
        upgrade: None,
        base_instructions: "".to_string(),
        model_messages: None,
        supports_reasoning_summaries: false,
        default_reasoning_summary: ReasoningSummary::NoSummary,
        support_verbosity: false,
        default_verbosity: None,
        apply_patch_tool_type: None,
        web_search_tool_type: WebSearchToolType::Text,
        truncation_policy: TruncationPolicyConfig::Tokens(10_000),
        supports_parallel_tool_calls: true,
        supports_image_detail_original: false,
        context_window: Some(context_window),
        max_context_window: Some(context_window),
        auto_compact_token_limit: None,
        effective_context_window_percent: 95,
        experimental_supported_tools: Vec::new(),
        input_modalities: modalities,
        used_fallback_model_metadata: false,
        supports_search_tool: false,
        use_responses_lite: false,
        auto_review_model_override: None,
        tool_mode: None,
        multi_agent_version: None,
    }
}

/// The catalog that is offered by default.
pub fn static_model_catalog() -> (r: ModelsResponse)
    ensures
        is_static_catalog(r),
{
    let modalities: Vec<InputModality> = vec![InputModality::Text, InputModality::Image];
    assert(modalities@ =~= default_modalities());
    let taken: &[InputModality] = modalities.as_slice();
    ModelsResponse {
        models: vec![
            minimax_model(
                "MiniMax-M3",
                "MiniMax M3",
                0,
                MINIMAX_M3_CONTEXT_WINDOW,
                ReasoningEffort::High,
                taken,
            ),
            minimax_model(
                "MiniMax-M3-highspeed",
                "MiniMax M3 (High Speed)",
                1,
                MINIMAX_M3_CONTEXT_WINDOW,
                ReasoningEffort::High,
                taken,
            ),
            minimax_model(
                "MiniMax-M2.7",
                "MiniMax M2.7",
                2,
                MINIMAX_M2_7_CONTEXT_WINDOW,
                ReasoningEffort::High,
                taken,
            ),
            minimax_model(
                "MiniMax-M2.7-highspeed",
                "MiniMax M2.7 (High Speed)",
                3,
                MINIMAX_M2_7_CONTEXT_WINDOW,
                ReasoningEffort::High,
                taken,
            ),
            minimax_model(
                "MiniMax-M2.5",
                "MiniMax M2.5",
                4,
                MINIMAX_M2_5_CONTEXT_WINDOW,
                ReasoningEffort::Medium,
                taken,
            ),
            minimax_model(
                "MiniMax-M2.5-highspeed",
                "MiniMax M2.5 (High Speed)",
                5,
                MINIMAX_M2_5_CONTEXT_WINDOW,
                ReasoningEffort::Medium,
                taken,
            ),
        ],
    }
}

/// Every model of the default catalog takes texts and images.
pub proof fn law_every_model_takes_images(catalog: ModelsResponse, i: int)
    requires
        is_static_catalog(catalog),
        0 <= i < catalog.models@.len(),
    ensures
        catalog.models@[i].input_modalities@.contains(InputModality::Text),
        catalog.models@[i].input_modalities@.contains(InputModality::Image),
{
    assert(default_modalities()[0] == InputModality::Text);
    assert(default_modalities()[1] == InputModality::Image);
    assert(i == 0 || i == 1 || i == 2 || i == 3 || i == 4 || i == 5);
}

/// The models of the default catalog stand in the order of their priorities,
/// which count up from zero, and no two have the same slug.
pub proof fn law_models_stand_by_priority(catalog: ModelsResponse, i: int, j: int)
    requires
        is_static_catalog(catalog),
        0 <= i < j < catalog.models@.len(),
    ensures
        catalog.models@[i].priority == i,
        catalog.models@[j].priority == j,
        catalog.models@[i].slug@ != catalog.models@[j].slug@,
{
    reveal_strlit("MiniMax-M3");
    reveal_strlit("MiniMax-M3-highspeed");
    reveal_strlit("MiniMax-M2.7");
    reveal_strlit("MiniMax-M2.7-highspeed");
    reveal_strlit("MiniMax-M2.5");
    reveal_strlit("MiniMax-M2.5-highspeed");
    assert(i == 0 || i == 1 || i == 2 || i == 3 || i == 4);
    assert(j == 1 || j == 2 || j == 3 || j == 4 || j == 5);
    assert("MiniMax-M2.7"@[11] != "MiniMax-M2.5"@[11]);
    assert("MiniMax-M2.7-highspeed"@[11] != "MiniMax-M2.5-highspeed"@[11]);
    assert("MiniMax-M3"@.len() == 10);
    assert("MiniMax-M3-highspeed"@.len() == 20);
    assert("MiniMax-M2.7"@.len() == 12);
    assert("MiniMax-M2.7-highspeed"@.len() == 22);
    assert("MiniMax-M2.5"@.len() == 12);
    assert("MiniMax-M2.5-highspeed"@.len() == 22);
    let slug = catalog.models@[i].slug@;
    let later = catalog.models@[j].slug@;
    assert(slug.len() != later.len() || slug[11] != later[11]);
}

/// The fast variant of a model stands right behind it: its slug and its name are
/// those of the model with a mark behind them, its window and its level the same.
pub proof fn law_fast_variants_follow_their_models(catalog: ModelsResponse, i: int)
    requires
        is_static_catalog(catalog),
        0 <= i < catalog.models@.len(),
        i % 2 == 1,
    ensures
        catalog.models@[i].slug@ == catalog.models@[i - 1].slug@ + "-highspeed"@,
        catalog.models@[i].display_name@ == catalog.models@[i - 1].display_name@
            + " (High Speed)"@,
        catalog.models@[i].context_window == catalog.models@[i - 1].context_window,
        catalog.models@[i].max_context_window == catalog.models@[i - 1].max_context_window,
        catalog.models@[i].default_reasoning_level == catalog.models@[i
            - 1].default_reasoning_level,
        catalog.models@[i].description->0@ == catalog.models@[i - 1].description->0@,
        catalog.models@[i].input_modalities@ == catalog.models@[i - 1].input_modalities@,
{
    reveal_strlit("MiniMax-M3");
    reveal_strlit("MiniMax-M3-highspeed");
    reveal_strlit("MiniMax-M2.7");
    reveal_strlit("MiniMax-M2.7-highspeed");
    reveal_strlit("MiniMax-M2.5");
    reveal_strlit("MiniMax-M2.5-highspeed");
    reveal_strlit("MiniMax M3");
    reveal_strlit("MiniMax M3 (High Speed)");
    reveal_strlit("MiniMax M2.7");
    reveal_strlit("MiniMax M2.7 (High Speed)");
    reveal_strlit("MiniMax M2.5");
    reveal_strlit("MiniMax M2.5 (High Speed)");
    reveal_strlit("-highspeed");
    reveal_strlit(" (High Speed)");
    assert(i == 1 || i == 3 || i == 5);
    assert("MiniMax-M3-highspeed"@ =~= "MiniMax-M3"@ + "-highspeed"@);
    assert("MiniMax-M2.7-highspeed"@ =~= "MiniMax-M2.7"@ + "-highspeed"@);
    assert("MiniMax-M2.5-highspeed"@ =~= "MiniMax-M2.5"@ + "-highspeed"@);
    assert("MiniMax M3 (High Speed)"@ =~= "MiniMax M3"@ + " (High Speed)"@);
    assert("MiniMax M2.7 (High Speed)"@ =~= "MiniMax M2.7"@ + " (High Speed)"@);
    assert("MiniMax M2.5 (High Speed)"@ =~= "MiniMax M2.5"@ + " (High Speed)"@);
}

/// The models of the default catalog by their slugs: their names, windows and
/// levels.
pub proof fn law_models_by_slug(catalog: ModelsResponse, i: int)
    requires
        is_static_catalog(catalog),
        0 <= i < catalog.models@.len(),
        i % 2 == 0,
    ensures
        ({
            let model = catalog.models@[i];
            &&& i == 0 ==> model.slug@ == "MiniMax-M3"@ && model.display_name@ == "MiniMax M3"@
                && model.context_window == Some(512_000i64) && model.default_reasoning_level is Some
                && model.default_reasoning_level->0 is High
            &&& i == 2 ==> model.slug@ == "MiniMax-M2.7"@ && model.display_name@ == "MiniMax M2.7"@
                && model.context_window == Some(200_000i64) && model.default_reasoning_level is Some
                && model.default_reasoning_level->0 is High
            &&& i == 4 ==> model.slug@ == "MiniMax-M2.5"@ && model.display_name@ == "MiniMax M2.5"@
                && model.context_window == Some(100_000i64) && model.default_reasoning_level is Some
                && model.default_reasoning_level->0 is Medium
            &&& i == 0 || i == 2 || i == 4
        }),
{
}

/// The description of a model tells its window in thousands, in a decimal numeral.
pub proof fn law_descriptions_tell_the_window(
    model: ModelInfo,
    slug: Seq<char>,
    display_name: Seq<char>,
    priority: i32,
    context_window: i64,
    level: ReasoningEffort,
    modalities: Seq<InputModality>,
)
    requires
        is_minimax_model(
            model,
            slug,
            display_name,
            priority,
            context_window,
            level,
            modalities,
        ),
    ensures
        model.context_window == Some(context_window),
        model.max_context_window == Some(context_window),
        model.description is Some,
        context_window >= 0 ==> exists|numeral: Seq<char>|
            model.description->0@ == "MiniMax model - "@ + #[trigger] (numeral
                + "k context window"@) && text_laws::spelled_number(numeral) == context_window
                / 1000 && numeral.len() > 0 && (numeral[0] == '0' ==> context_window < 1000),
        -1000 < context_window < 0 ==> model.description->0@ == "MiniMax model - 0k context window"@,
        context_window <= -1000 ==> exists|numeral: Seq<char>|
            model.description->0@ == "MiniMax model - -"@ + #[trigger] (numeral
                + "k context window"@) && text_laws::spelled_number(numeral) == (-context_window)
                / 1000 && numeral.len() > 0 && numeral[0] != '0',
{
    reveal_strlit("MiniMax model - ");
    reveal_strlit("MiniMax model - -");
    reveal_strlit("-");
    reveal_strlit("k context window");
    reveal_strlit("MiniMax model - 0k context window");
    let whole = model.description->0@;
    let size = if context_window >= 0 {
        (context_window / 1000) as nat
    } else {
        ((-context_window) / 1000) as nat
    };
    let numeral = text::decimal(size);
    text_laws::law_decimal_numerals(size);
    if context_window >= 0 {
        assert(whole =~= "MiniMax model - "@ + (numeral + "k context window"@));
    } else if context_window <= -1000 {
        assert(whole =~= "MiniMax model - -"@ + (numeral + "k context window"@));
    } else {
        assert(number_text(thousands(context_window as int)) == seq!['0']);
        assert(whole =~= "MiniMax model - 0k context window"@);
    }
}

/// What every MiniMax model offers: three efforts, from the lightest to the deepest,
/// commands in a shell, calls of several tools at once, and outputs of ten thousand
/// tokens in nearly the whole of its window. It is shown in lists and open to the
/// API, and has no tiers, no summaries, no verbosity and no tools of its own.
pub proof fn law_what_every_model_offers(
    model: ModelInfo,
    slug: Seq<char>,
    display_name: Seq<char>,
    priority: i32,
    context_window: i64,
    level: ReasoningEffort,
    modalities: Seq<InputModality>,
)
    requires
        is_minimax_model(
            model,
            slug,
            display_name,
            priority,
            context_window,
            level,
            modalities,
        ),
    ensures
        model.slug@ == slug && model.display_name@ == display_name && model.priority == priority,
        model.default_reasoning_level == Some(level),
        model.input_modalities@ == modalities,
        ({
            let levels = model.supported_reasoning_levels@;
            &&& levels.len() == 3
            &&& levels[0].effort is Low && levels[0].description@
                == "Fast responses with lighter reasoning"@
            &&& levels[1].effort is Medium && levels[1].description@
                == "Balances speed and reasoning depth for everyday tasks"@
            &&& levels[2].effort is High && levels[2].description@
                == "Greater reasoning depth for complex problems"@
        }),
        model.supported_in_api && model.supports_parallel_tool_calls,
        model.truncation_policy == TruncationPolicyConfig::Tokens(10_000),
        model.effective_context_window_percent == 95,
        model.base_instructions@.len() == 0,
        model.additional_speed_tiers@.len() + model.service_tiers@.len()
            + model.experimental_supported_tools@.len() == 0,
        !(model.supports_reasoning_summaries || model.support_verbosity
            || model.supports_image_detail_original || model.used_fallback_model_metadata
            || model.supports_search_tool || model.use_responses_lite),
        model.default_service_tier is None && model.availability_nux is None && model.upgrade is None
            && model.model_messages is None && model.default_verbosity is None,
        model.apply_patch_tool_type is None && model.auto_compact_token_limit is None
            && model.auto_review_model_override is None && model.tool_mode is None
            && model.multi_agent_version is None,
{
    reveal_strlit("");
}

/// What is said of the efforts beside those that every model offers.
pub proof fn law_other_efforts_are_described(preset: ReasoningEffortPreset, effort: ReasoningEffort)
    requires
        is_preset(preset, effort),
    ensures
        preset.effort == effort,
        effort is NoReasoning ==> preset.description@ == "No reasoning"@,
        effort is Minimal ==> preset.description@ == "Minimal reasoning"@,
        effort is XHigh ==> preset.description@
            == "Extra high reasoning depth for complex problems"@,
        effort is Custom ==> preset.description@ == "Model-specific reasoning effort"@,
{
}

} // verus!
