//! Cloudflare Workers AI: the supported text-to-image models, their wire
//! details, and the client's error type.

use crate::json::{json_at, json_parses, leaf_bool, leaf_str, leaf_u64, parse_json, JsonDoc, JsonLeaf, JsonLeafView};
use crate::outside::build_http_client;
use crate::text::{
    ascii_fold, ascii_lower, eq_ascii_ci, eq_ignore_ascii_case, is_white_space, lemma_trimmed_unchanged, trim, trimmed,
};
use vstd::wrapping::u64_specs;
use vstd::prelude::*;
use vstd::string::*;

verus! {

/// Errors returned by the Cloudflare Workers AI client.
#[derive(Debug)]
#[non_exhaustive]
pub enum AiError {
    /// The HTTP request could not be sent or read.
    Http(reqwest::Error),
    /// Cloudflare answered with a non-success HTTP status.
    Api { status: u16, detail: String },
    /// The response envelope carried `"success": false`.
    NotSuccess { detail: String },
    /// The body was neither raw image bytes nor the JSON envelope.
    UnexpectedPayload(serde_json::Error),
    /// A successful envelope did not contain `result.image`.
    MissingImage,
    /// A successful text-generation envelope did not contain
    /// `result.response`.
    MissingResponse,
    /// `result.image` was not valid base64.
    InvalidBase64(base64::DecodeError),
    /// A model name was not recognized.
    InvalidModel(String),
}

/// A generated image, normalized to raw bytes so consumers never deal with
/// provider transport details (binary vs base64 vs URL).
#[derive(Debug, Clone)]
pub struct GeneratedImage {
    pub bytes: Vec<u8>,
    pub mime: String,
}

/// How a model's prompt must be encoded on the wire.
#[derive(Debug, Clone, Copy, PartialEq, Eq, Structural)]
#[non_exhaustive]
pub enum Input {
    /// `application/json` body: `{"prompt": "..."}`.
    Json,
    /// `multipart/form-data` body with a `prompt` field.
    Multipart,
}

/// A Cloudflare Workers AI text-to-image model.
#[derive(Debug, Clone, Copy, PartialEq, Eq, Hash, Structural)]
#[non_exhaustive]
pub enum Model {
    /// Flux 2 Dev: highest-quality Flux.
    Flux2Dev,
    /// Flux 1 Schnell: fast Flux, the default.
    Flux1Schnell,
    /// Flux 2 Klein 4B: smaller Flux 2.
    Flux2Klein4b,
    /// Flux 2 Klein 9B: larger of the two Klein variants.
    Flux2Klein9b,
    /// Stable Diffusion XL Lightning (ByteDance).
    SdXlLightning,
    /// Dreamshaper 8 LCM (Lykon).
    Dreamshaper8Lcm,
    /// Stable Diffusion XL Base 1.0 (Stability AI).
    SdXlBase1,
}

/// Every supported model, in the order shown to users.
pub open spec fn all_models() -> Seq<Model> {
    seq![
        Model::Flux2Dev,
        Model::Flux1Schnell,
        Model::Flux2Klein4b,
        Model::Flux2Klein9b,
        Model::SdXlLightning,
        Model::Dreamshaper8Lcm,
        Model::SdXlBase1,
    ]
}

/// All accepted names of a model, canonical name first.
pub open spec fn alias_names(m: Model) -> Seq<Seq<char>> {
    match m {
        Model::Flux2Dev => seq!["flux-2-dev"@, "flux2dev"@],
        Model::Flux1Schnell => seq!["flux-1-schnell"@, "flux-schnell"@, "schnell"@],
        Model::Flux2Klein4b => seq!["flux-2-klein-4b"@, "klein-4b"@],
        Model::Flux2Klein9b => seq!["flux-2-klein-9b"@, "klein-9b"@],
        Model::SdXlLightning => seq!["sd-xl-lightning"@, "sdxl-lightning"@, "sd-lightning"@],
        Model::Dreamshaper8Lcm => seq!["dreamshaper-8-lcm"@, "dreamshaper"@, "lcm"@],
        Model::SdXlBase1 => seq!["sd-xl-base"@, "sdxl-base"@, "sd-base"@],
    }
}

/// `t` names model `m`, up to ASCII case.
pub open spec fn names_model(m: Model, t: Seq<char>) -> bool {
    exists|i: int| 0 <= i < alias_names(m).len() && eq_ascii_ci(t, #[trigger] alias_names(m)[i])
}

/// The first model (in [`all_models`] order) among the first `k` that `t`
/// names.
pub open spec fn first_named(t: Seq<char>, k: int) -> Option<Model>
    decreases k,
{
    if k <= 0 {
        None
    } else {
        match first_named(t, k - 1) {
            Some(m) => Some(m),
            None => if names_model(all_models()[k - 1], t) {
                Some(all_models()[k - 1])
            } else {
                None
            },
        }
    }
}

proof fn lemma_first_named_stable(t: Seq<char>, j: int, j2: int)
    requires
        0 <= j <= j2,
        first_named(t, j) is Some,
    ensures
        first_named(t, j2) == first_named(t, j),
    decreases j2,
{
    if j2 > j {
        lemma_first_named_stable(t, j, j2 - 1);
    }
}

/// The position of a model in [`all_models`].
pub open spec fn model_index(m: Model) -> int {
    match m {
        Model::Flux2Dev => 0,
        Model::Flux1Schnell => 1,
        Model::Flux2Klein4b => 2,
        Model::Flux2Klein9b => 3,
        Model::SdXlLightning => 4,
        Model::Dreamshaper8Lcm => 5,
        Model::SdXlBase1 => 6,
    }
}

proof fn lemma_same_fold(t: Seq<char>, a: Seq<char>, b: Seq<char>)
    requires
        eq_ascii_ci(t, a),
        eq_ascii_ci(t, b),
    ensures
        a.len() == b.len(),
        forall|k: int| 0 <= k < a.len() ==> ascii_lower(#[trigger] a[k]) == ascii_lower(b[k]),
{
    assert(ascii_fold(a).len() == ascii_fold(b).len());
    assert forall|k: int| 0 <= k < a.len() implies ascii_lower(#[trigger] a[k]) == ascii_lower(b[k]) by {
        assert(ascii_fold(a)[k] == ascii_fold(b)[k]);
    }
}

/// No two models share a name, up to ASCII case: a name of `m2` that
/// matches a name of `m` is a name of the same model.
proof fn lemma_names_distinct(m: Model, i: int, m2: Model, j: int, t: Seq<char>)
    requires
        0 <= i < alias_names(m).len(),
        0 <= j < alias_names(m2).len(),
        eq_ascii_ci(t, alias_names(m)[i]),
        eq_ascii_ci(t, alias_names(m2)[j]),
    ensures
        m2 == m,
{
    reveal_strlit("flux-2-dev");
    reveal_strlit("flux2dev");
    reveal_strlit("flux-1-schnell");
    reveal_strlit("flux-schnell");
    reveal_strlit("schnell");
    reveal_strlit("flux-2-klein-4b");
    reveal_strlit("klein-4b");
    reveal_strlit("flux-2-klein-9b");
    reveal_strlit("klein-9b");
    reveal_strlit("sd-xl-lightning");
    reveal_strlit("sdxl-lightning");
    reveal_strlit("sd-lightning");
    reveal_strlit("dreamshaper-8-lcm");
    reveal_strlit("dreamshaper");
    reveal_strlit("lcm");
    reveal_strlit("sd-xl-base");
    reveal_strlit("sdxl-base");
    reveal_strlit("sd-base");
    let a = alias_names(m)[i];
    let b = alias_names(m2)[j];
    lemma_same_fold(t, a, b);
    if a.len() > 0 {
        assert(ascii_lower(a[0]) == ascii_lower(b[0]));
    }
    if a.len() > 6 {
        assert(ascii_lower(a[6]) == ascii_lower(b[6]));
    }
    if a.len() > 13 {
        assert(ascii_lower(a[13]) == ascii_lower(b[13]));
    }
}

/// Every name of a model, in any ASCII case, selects that model: the
/// names of the models are distinct.
pub proof fn law_each_name_selects_its_model(m: Model, i: int, t: Seq<char>)
    requires
        0 <= i < alias_names(m).len(),
        eq_ascii_ci(t, alias_names(m)[i]),
    ensures
        first_named(t, 7) == Some(m),
{
    assert(names_model(m, t));
    assert forall|k: int| 0 <= k < 7 && #[trigger] names_model(all_models()[k], t) implies all_models()[k] == m by {
        let m2 = all_models()[k];
        let j = choose|j: int| 0 <= j < alias_names(m2).len() && eq_ascii_ci(t, #[trigger] alias_names(m2)[j]);
        lemma_names_distinct(m, i, m2, j, t);
    }
    reveal_with_fuel(first_named, 8);
    assert(all_models()[model_index(m)] == m);
}

/// The model that user input `s` names, ignoring surrounding white space
/// and ASCII case.
pub open spec fn from_alias_spec(s: Seq<char>) -> Option<Model> {
    first_named(trimmed(s), 7)
}

/// ASCII upper-casing of one character; every other character is kept.
pub open spec fn ascii_upper(c: char) -> char {
    if 'a' <= c && c <= 'z' {
        ((c as u32) - 32) as char
    } else {
        c
    }
}

/// ASCII upper-casing of every character of `s`.
pub open spec fn ascii_upper_all(s: Seq<char>) -> Seq<char> {
    s.map_values(|c: char| ascii_upper(c))
}

proof fn lemma_alias_ends(m: Model, i: int)
    requires
        0 <= i < alias_names(m).len(),
    ensures
        alias_names(m)[i].len() > 0,
        'a' <= alias_names(m)[i][0] <= 'z',
        alias_names(m)[i].last() != '-' && !is_white_space(alias_names(m)[i].last()),
        ('a' <= alias_names(m)[i].last() <= 'z') || ('0' <= alias_names(m)[i].last() <= '9'),
{
    reveal_strlit("flux-2-dev");
    reveal_strlit("flux2dev");
    reveal_strlit("flux-1-schnell");
    reveal_strlit("flux-schnell");
    reveal_strlit("schnell");
    reveal_strlit("flux-2-klein-4b");
    reveal_strlit("klein-4b");
    reveal_strlit("flux-2-klein-9b");
    reveal_strlit("klein-9b");
    reveal_strlit("sd-xl-lightning");
    reveal_strlit("sdxl-lightning");
    reveal_strlit("sd-lightning");
    reveal_strlit("dreamshaper-8-lcm");
    reveal_strlit("dreamshaper");
    reveal_strlit("lcm");
    reveal_strlit("sd-xl-base");
    reveal_strlit("sdxl-base");
    reveal_strlit("sd-base");
}

proof fn lemma_upper_keeps_case_class(s: Seq<char>)
    ensures
        eq_ascii_ci(ascii_upper_all(s), s),
{
    assert forall|k: int| 0 <= k < s.len() implies ascii_lower(ascii_upper(s[k])) == ascii_lower(s[k]) by {
        let c = s[k];
        if 'a' <= c && c <= 'z' {
            assert(((c as u32) - 32) as char as u32 == (c as u32) - 32);
        }
    }
    assert(ascii_fold(ascii_upper_all(s)) =~= ascii_fold(s));
}

/// Every name of a model selects it, and so does the name upper-cased:
/// `Model::from_alias` maps each of a model's names, in lower or upper
/// case, to the model.
pub proof fn law_names_select_their_model(m: Model, i: int)
    requires
        0 <= i < alias_names(m).len(),
    ensures
        from_alias_spec(alias_names(m)[i]) == Some(m),
        from_alias_spec(ascii_upper_all(alias_names(m)[i])) == Some(m),
{
    let a = alias_names(m)[i];
    let u = ascii_upper_all(a);
    lemma_alias_ends(m, i);
    lemma_trimmed_unchanged(a);
    assert(eq_ascii_ci(a, a));
    law_each_name_selects_its_model(m, i, a);
    assert(u[0] == ascii_upper(a[0]));
    assert(u.last() == ascii_upper(a.last()));
    assert((a[0] as u32) - 32 >= 65);
    lemma_trimmed_unchanged(u);
    lemma_upper_keeps_case_class(a);
    law_each_name_selects_its_model(m, i, u);
}

/// The Cloudflare `@cf/…` path of a model.
pub open spec fn path_spec(m: Model) -> Seq<char> {
    match m {
        Model::Flux2Dev => "@cf/black-forest-labs/flux-2-dev"@,
        Model::Flux1Schnell => "@cf/black-forest-labs/flux-1-schnell"@,
        Model::Flux2Klein4b => "@cf/black-forest-labs/flux-2-klein-4b"@,
        Model::Flux2Klein9b => "@cf/black-forest-labs/flux-2-klein-9b"@,
        Model::SdXlLightning => "@cf/bytedance/stable-diffusion-xl-lightning"@,
        Model::Dreamshaper8Lcm => "@cf/lykon/dreamshaper-8-lcm"@,
        Model::SdXlBase1 => "@cf/stabilityai/stable-diffusion-xl-base-1.0"@,
    }
}

/// The short description of a model.
pub open spec fn description_spec(m: Model) -> Seq<char> {
    match m {
        Model::Flux2Dev => "Flux 2 Dev \u{2014} best quality"@,
        Model::Flux1Schnell => "Flux 1 Schnell \u{2014} fast (default)"@,
        Model::Flux2Klein4b => "Flux 2 Klein 4B \u{2014} compact"@,
        Model::Flux2Klein9b => "Flux 2 Klein 9B \u{2014} compact"@,
        Model::SdXlLightning => "SDXL Lightning \u{2014} fast"@,
        Model::Dreamshaper8Lcm => "Dreamshaper 8 LCM \u{2014} fast"@,
        Model::SdXlBase1 => "SDXL Base 1.0"@,
    }
}

/// The wire encoding of a model's prompt: the Flux 2 models take
/// multipart forms, every other model JSON.
pub open spec fn input_spec(m: Model) -> Input {
    match m {
        Model::Flux2Dev | Model::Flux2Klein4b | Model::Flux2Klein9b => Input::Multipart,
        _ => Input::Json,
    }
}

impl Model {
    /// Every supported model, in the order shown to users.
    pub fn all() -> (r: Vec<Model>)
        ensures
            r@ == all_models(),
    {
        let r = vec![
            Model::Flux2Dev,
            Model::Flux1Schnell,
            Model::Flux2Klein4b,
            Model::Flux2Klein9b,
            Model::SdXlLightning,
            Model::Dreamshaper8Lcm,
            Model::SdXlBase1,
        ];
        assert(r@ =~= all_models());
        r
    }

    /// All accepted tokens, canonical name first.
    pub fn aliases(self) -> (r: Vec<&'static str>)
        ensures
            r@.len() == alias_names(self).len(),
            forall|i: int| 0 <= i < r@.len() ==> #[trigger] r@[i]@ == alias_names(self)[i],
    {
        match self {
            Model::Flux2Dev => vec!["flux-2-dev", "flux2dev"],
            Model::Flux1Schnell => vec!["flux-1-schnell", "flux-schnell", "schnell"],
            Model::Flux2Klein4b => vec!["flux-2-klein-4b", "klein-4b"],
            Model::Flux2Klein9b => vec!["flux-2-klein-9b", "klein-9b"],
            Model::SdXlLightning => vec!["sd-xl-lightning", "sdxl-lightning", "sd-lightning"],
            Model::Dreamshaper8Lcm => vec!["dreamshaper-8-lcm", "dreamshaper", "lcm"],
            Model::SdXlBase1 => vec!["sd-xl-base", "sdxl-base", "sd-base"],
        }
    }

    /// The canonical short name: the primary token users type.
    pub fn as_str(self) -> (r: &'static str)
        ensures
            r@ == alias_names(self)[0],
    {
        let names = self.aliases();
        names[0]
    }

    /// The Cloudflare `@cf/…` path used in the REST URL.
    pub fn path(self) -> (r: &'static str)
        ensures
            r@ == path_spec(self),
    {
        match self {
            Model::Flux2Dev => "@cf/black-forest-labs/flux-2-dev",
            Model::Flux1Schnell => "@cf/black-forest-labs/flux-1-schnell",
            Model::Flux2Klein4b => "@cf/black-forest-labs/flux-2-klein-4b",
            Model::Flux2Klein9b => "@cf/black-forest-labs/flux-2-klein-9b",
            Model::SdXlLightning => "@cf/bytedance/stable-diffusion-xl-lightning",
            Model::Dreamshaper8Lcm => "@cf/lykon/dreamshaper-8-lcm",
            Model::SdXlBase1 => "@cf/stabilityai/stable-diffusion-xl-base-1.0",
        }
    }

    /// How the prompt must be encoded for this model.
    pub fn input(self) -> (r: Input)
        ensures
            r == input_spec(self),
    {
        match self {
            Model::Flux2Dev | Model::Flux2Klein4b | Model::Flux2Klein9b => Input::Multipart,
            Model::Flux1Schnell | Model::SdXlLightning | Model::Dreamshaper8Lcm | Model::SdXlBase1 => Input::Json,
        }
    }

    /// A short human description, for help text and menus.
    pub fn description(self) -> (r: &'static str)
        ensures
            r@ == description_spec(self),
    {
        match self {
            Model::Flux2Dev => "Flux 2 Dev \u{2014} best quality",
            Model::Flux1Schnell => "Flux 1 Schnell \u{2014} fast (default)",
            Model::Flux2Klein4b => "Flux 2 Klein 4B \u{2014} compact",
            Model::Flux2Klein9b => "Flux 2 Klein 9B \u{2014} compact",
            Model::SdXlLightning => "SDXL Lightning \u{2014} fast",
            Model::Dreamshaper8Lcm => "Dreamshaper 8 LCM \u{2014} fast",
            Model::SdXlBase1 => "SDXL Base 1.0",
        }
    }

    /// Whether `t` is one of this model's names, up to ASCII case.
    fn is_named(self, t: &str) -> (r: bool)
        ensures
            r == names_model(self, t@),
    {
        let names = self.aliases();
        let mut i: usize = 0;
        while i < names.len()
            invariant
                i <= names@.len(),
                names@.len() == alias_names(self).len(),
                forall|j: int| 0 <= j < names@.len() ==> #[trigger] names@[j]@ == alias_names(self)[j],
                forall|j: int| 0 <= j < i ==> !eq_ascii_ci(t@, #[trigger] alias_names(self)[j]),
            decreases names.len() - i,
        {
            if eq_ignore_ascii_case(t, names[i]) {
                assert(eq_ascii_ci(t@, alias_names(self)[i as int]));
                return true;
            }
            i = i + 1;
        }
        false
    }

    /// Match user input against [`Model::aliases`], ignoring surrounding
    /// white space and ASCII case.
    pub fn from_alias(s: &str) -> (r: Option<Model>)
        ensures
            r == from_alias_spec(s@),
    {
        let t = trim(s);
        let all = Model::all();
        let mut k: usize = 0;
        while k < all.len()
            invariant
                all@ == all_models(),
                k <= 7,
                t@ == trimmed(s@),
                first_named(t@, k as int) is None,
            decreases all.len() - k,
        {
            if all[k].is_named(t) {
                assert(first_named(t@, k + 1) == Some(all_models()[k as int]));
                proof {
                    lemma_first_named_stable(t@, k + 1, 7);
                }
                return Some(all[k]);
            }
            k = k + 1;
        }
        None
    }

    /// The canonical name, as `Display` shows the model.
    pub fn to_display(self) -> (r: String)
        ensures
            r@ == alias_names(self)[0],
    {
        self.as_str().to_owned()
    }
}

impl Default for Model {
    fn default() -> (m: Model)
        ensures
            m == Model::Flux1Schnell,
    {
        Model::Flux1Schnell
    }
}

impl std::str::FromStr for Model {
    type Err = AiError;

    fn from_str(s: &str) -> (r: Result<Model, AiError>)
        ensures
            match r {
                Ok(m) => from_alias_spec(s@) == Some(m),
                Err(AiError::InvalidModel(name)) => from_alias_spec(s@) is None && name@ == trimmed(s@),
                Err(_) => false,
            },
    {
        match Model::from_alias(s) {
            Some(m) => Ok(m),
            None => Err(AiError::InvalidModel(trim(s).to_owned())),
        }
    }
}

impl Model {
    /// Parse a model name; an unknown name is reported (trimmed) as
    /// [`AiError::InvalidModel`].
    pub fn parse(s: &str) -> (r: Result<Model, AiError>)
        ensures
            match r {
                Ok(m) => from_alias_spec(s@) == Some(m),
                Err(AiError::InvalidModel(name)) => from_alias_spec(s@) is None && name@ == trimmed(s@),
                Err(_) => false,
            },
    {
        match Model::from_alias(s) {
            Some(m) => Ok(m),
            None => Err(AiError::InvalidModel(trim(s).to_owned())),
        }
    }
}

impl AiError {
    /// The error's message, as its `Display` shows it.
    pub fn message(&self) -> (r: String)
        ensures
            self matches AiError::InvalidModel(name) ==> r@ == "unknown model: "@ + name@,
            self matches AiError::NotSuccess { detail } ==> r@ == "Cloudflare request not successful: "@ + detail@,
            self matches AiError::MissingResponse ==> r@ == "Cloudflare success response missing result.response"@,
            self matches AiError::MissingImage ==> r@ == "Cloudflare success response missing result.image"@,
    {
        match self {
            AiError::Http(_) => String::from_str("Cloudflare request failed"),
            AiError::Api { status, detail } => {
                let mut out = String::from_str("Cloudflare error ");
                out.append(crate::text::u64_to_string(*status as u64).as_str());
                out.append(": ");
                out.append(detail.as_str());
                out
            },
            AiError::NotSuccess { detail } => {
                let mut out = String::from_str("Cloudflare request not successful: ");
                out.append(detail.as_str());
                out
            },
            AiError::UnexpectedPayload(_) => String::from_str(
                "Cloudflare response was neither an image nor the JSON envelope",
            ),
            AiError::MissingImage => String::from_str("Cloudflare success response missing result.image"),
            AiError::MissingResponse => String::from_str("Cloudflare success response missing result.response"),
            AiError::InvalidBase64(_) => String::from_str("result.image was not valid base64"),
            AiError::InvalidModel(name) => {
                let mut out = String::from_str("unknown model: ");
                out.append(name.as_str());
                out
            },
        }
    }
}


/// Token usage of one text-generation request.
#[derive(Debug, Clone, Copy, PartialEq, Eq, Structural)]
pub struct Usage {
    pub prompt_tokens: u64,
    pub completion_tokens: u64,
    pub total_tokens: u64,
}

/// The assistant's reply to a chat request, with its token usage when the
/// response reported it.
#[derive(Debug, Clone)]
pub struct ChatCompletion {
    pub text: String,
    pub usage: Option<Usage>,
}

/// Base URL for the Cloudflare REST API.
pub const API_BASE: &'static str = "https://api.cloudflare.com/client/v4";

/// The User-Agent the client sends.
pub const USER_AGENT: &'static str = "cloudflare-ai/0.1.0";

/// A Cloudflare Workers AI client over one account.
#[derive(Clone)]
pub struct CloudflareAiClient {
    http: reqwest::Client,
    account_id: String,
    api_token: String,
}

impl View for CloudflareAiClient {
    /// The account id and the API token.
    type V = (Seq<char>, Seq<char>);

    closed spec fn view(&self) -> (Seq<char>, Seq<char>) {
        (self.account_id@, self.api_token@)
    }
}

/// The `errors[0].message` of the Cloudflare JSON error envelope in
/// `bytes`: `errors` must be a non-empty array.
pub open spec fn error_detail_spec(bytes: Seq<u8>) -> Option<Seq<char>> {
    match json_at(bytes, "/errors"@) {
        JsonLeafView::Array(n) => if n > 0 {
            leaf_str(json_at(bytes, "/errors/0/message"@))
        } else {
            None
        },
        _ => None,
    }
}

/// A number member of `result.usage`, zero when absent.
pub open spec fn usage_field(bytes: Seq<u8>, pointer: Seq<char>) -> u64 {
    match leaf_u64(json_at(bytes, pointer)) {
        Some(n) => n,
        None => 0,
    }
}

/// The `result.usage` object: absent fields count as zero, and a missing
/// (or zero) `total_tokens` is the sum of the parts.
pub open spec fn usage_spec(bytes: Seq<u8>) -> Usage {
    let prompt = usage_field(bytes, "/result/usage/prompt_tokens"@);
    let completion = usage_field(bytes, "/result/usage/completion_tokens"@);
    let total = usage_field(bytes, "/result/usage/total_tokens"@);
    Usage {
        prompt_tokens: prompt,
        completion_tokens: completion,
        total_tokens: if total > 0 { total } else { u64_specs::wrapping_add(prompt, completion) },
    }
}

/// `r` is the decoding of the text-generation envelope in `bytes`.
pub open spec fn decoded_chat(bytes: Seq<u8>, r: Result<ChatCompletion, AiError>) -> bool {
    let success = leaf_bool(json_at(bytes, "/success"@)) == Some(true);
    let text = leaf_str(json_at(bytes, "/result/response"@));
    let has_usage = !(json_at(bytes, "/result/usage"@) is Missing);
    match r {
        Ok(c) => success && text == Some(c.text@) && c.usage == (if has_usage {
            Some(usage_spec(bytes))
        } else {
            None
        }),
        Err(AiError::NotSuccess { detail }) => !success && detail@ == (match error_detail_spec(bytes) {
            Some(d) => d,
            None => Seq::empty(),
        }),
        Err(AiError::MissingResponse) => success && text is None,
        Err(_) => false,
    }
}

impl CloudflareAiClient {
    /// A client for `account_id` authenticating with `api_token`; fails
    /// only when the HTTP client cannot be built.
    pub fn new(account_id: String, api_token: String) -> (r: Result<CloudflareAiClient, AiError>)
        ensures
            r matches Ok(c) ==> c@ == (account_id@, api_token@),
            r matches Err(e) ==> e is Http,
    {
        match build_http_client(USER_AGENT) {
            Ok(http) => Ok(CloudflareAiClient { http, account_id, api_token }),
            Err(e) => Err(AiError::Http(e)),
        }
    }

    /// The HTTP client the requests are sent with.
    pub closed spec fn client(&self) -> reqwest::Client {
        self.http
    }

    /// The HTTP client.
    pub fn http(&self) -> (r: &reqwest::Client)
        ensures
            *r == self.client(),
    {
        &self.http
    }

    /// The account the requests run under.
    pub fn account_id(&self) -> (r: &str)
        ensures
            r@ == self@.0,
    {
        self.account_id.as_str()
    }

    /// The bearer token.
    pub fn api_token(&self) -> (r: &str)
        ensures
            r@ == self@.1,
    {
        self.api_token.as_str()
    }

    /// The `errors[0].message` of a parsed Cloudflare error envelope.
    pub fn error_detail_of(doc: &JsonDoc) -> (r: Option<String>)
        ensures
            match r {
                Some(s) => error_detail_spec(doc@) == Some(s@),
                None => error_detail_spec(doc@) is None,
            },
    {
        match doc.at("/errors") {
            JsonLeaf::Array(n) => {
                if n == 0 {
                    return None;
                }
                match doc.at("/errors/0/message") {
                    JsonLeaf::Str(m) => Some(m),
                    _ => None,
                }
            },
            _ => None,
        }
    }

    /// Pull the `errors[0].message` from a Cloudflare JSON error envelope;
    /// `None` when the body is not JSON or has no such message.
    pub fn error_detail(bytes: &[u8]) -> (r: Option<String>)
        ensures
            json_parses(bytes@) ==> match r {
                Some(s) => error_detail_spec(bytes@) == Some(s@),
                None => error_detail_spec(bytes@) is None,
            },
            !json_parses(bytes@) ==> r is None,
    {
        match parse_json(bytes) {
            Ok(doc) => Self::error_detail_of(&doc),
            Err(_) => None,
        }
    }

    /// A number member of `result.usage`, zero when absent.
    fn usage_field(doc: &JsonDoc, pointer: &str) -> (n: u64)
        ensures
            n == usage_field(doc@, pointer@),
    {
        match doc.at(pointer) {
            JsonLeaf::Number(Some(n)) => n,
            _ => 0,
        }
    }

    /// Parse the `result.usage` object; absent fields default to zero and
    /// a missing `total_tokens` is derived from the parts.
    pub fn parse_usage(doc: &JsonDoc) -> (u: Usage)
        ensures
            u == usage_spec(doc@),
    {
        let prompt = Self::usage_field(doc, "/result/usage/prompt_tokens");
        let completion = Self::usage_field(doc, "/result/usage/completion_tokens");
        let total = Self::usage_field(doc, "/result/usage/total_tokens");
        Usage {
            prompt_tokens: prompt,
            completion_tokens: completion,
            total_tokens: if total > 0 { total } else { prompt.wrapping_add(completion) },
        }
    }

    /// Decode a parsed text-generation envelope
    /// (`{"result":{"response":"<text>","usage":{...}},"success":true}`).
    pub fn decode_chat_doc(doc: &JsonDoc) -> (r: Result<ChatCompletion, AiError>)
        ensures
            decoded_chat(doc@, r),
    {
        let success = match doc.at("/success") {
            JsonLeaf::Bool(b) => b,
            _ => false,
        };
        if !success {
            let detail = match Self::error_detail_of(doc) {
                Some(d) => d,
                None => String::new(),
            };
            return Err(AiError::NotSuccess { detail });
        }
        let text = match doc.at("/result/response") {
            JsonLeaf::Str(t) => t,
            _ => return Err(AiError::MissingResponse),
        };
        let usage = match doc.at("/result/usage") {
            JsonLeaf::Missing => None,
            _ => Some(Self::parse_usage(doc)),
        };
        Ok(ChatCompletion { text, usage })
    }

    /// Decode a Workers AI text-generation response body; a body that is
    /// not JSON is an [`AiError::UnexpectedPayload`].
    pub fn decode_chat(bytes: &[u8]) -> (r: Result<ChatCompletion, AiError>)
        ensures
            json_parses(bytes@) ==> decoded_chat(bytes@, r),
            !json_parses(bytes@) ==> (r matches Err(e) && e is UnexpectedPayload),
    {
        match parse_json(bytes) {
            Ok(doc) => Self::decode_chat_doc(&doc),
            Err(e) => Err(AiError::UnexpectedPayload(e)),
        }
    }

    /// The URL of a text-generation run of the model at `model_path`.
    pub fn chat_url(&self, model_path: &str) -> (r: String)
        ensures
            r@ == API_BASE@ + "/accounts/"@ + self@.0 + "/ai/run/"@ + model_path@,
    {
        let mut out = API_BASE.to_owned();
        out.append("/accounts/");
        out.append(self.account_id.as_str());
        out.append("/ai/run/");
        out.append(model_path);
        out
    }

    /// The outcome of a text-generation request from its HTTP status and
    /// body: a non-success status is an [`AiError::Api`] carrying the
    /// envelope's error message (empty when there is none); otherwise the
    /// body is decoded.
    pub fn chat_outcome(status: u16, bytes: &[u8]) -> (r: Result<ChatCompletion, AiError>)
        ensures
            200 <= status <= 299 && json_parses(bytes@) ==> decoded_chat(bytes@, r),
            200 <= status <= 299 && !json_parses(bytes@) ==> (r matches Err(e) && e is UnexpectedPayload),
            !(200 <= status <= 299) ==> (r matches Err(AiError::Api { status: s, detail }) && s == status
                && detail@ == if json_parses(bytes@) {
                match error_detail_spec(bytes@) {
                    Some(d) => d,
                    None => Seq::<char>::empty(),
                }
            } else {
                Seq::<char>::empty()
            }),
    {
        if status < 200 || status > 299 {
            let detail = match Self::error_detail(bytes) {
                Some(d) => d,
                None => String::new(),
            };
            return Err(AiError::Api { status, detail });
        }
        Self::decode_chat(bytes)
    }
}

} // verus!
