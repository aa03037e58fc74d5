//! The catalog of models the model manager offers for download: each family
//! with its description, search tags and the tags that can be pulled.
use vstd::prelude::*;

use crate::presentation::models_view::{ModelFamily, ModelVariant};
use crate::text::{string_views, to_owned_string};

verus! {

/// The texts of one downloadable model tag.
#[verifier::ext_equal]
pub struct VariantText {
    pub name: Seq<char>,
    pub title: Seq<char>,
    pub description: Seq<char>,
    pub tags: Seq<Seq<char>>,
}

/// The texts of a model family and its tags.
#[verifier::ext_equal]
pub struct FamilyText {
    pub id: Seq<char>,
    pub title: Seq<char>,
    pub subtitle: Seq<char>,
    pub description: Seq<char>,
    pub tags: Seq<Seq<char>>,
    pub variants: Seq<VariantText>,
}

pub open spec fn variant_text(v: ModelVariant) -> VariantText {
    VariantText { name: v.name@, title: v.title@, description: v.description@, tags: string_views(v.tags@) }
}

pub open spec fn family_text(f: ModelFamily) -> FamilyText {
    FamilyText {
        id: f.id@,
        title: f.title@,
        subtitle: f.subtitle@,
        description: f.description@,
        tags: string_views(f.tags@),
        variants: f.variants@.map_values(|v: ModelVariant| variant_text(v)),
    }
}

pub open spec fn catalog_text(families: Seq<ModelFamily>) -> Seq<FamilyText> {
    families.map_values(|f: ModelFamily| family_text(f))
}

fn tags2(t0: &str, t1: &str) -> (r: Vec<String>)
    ensures
        string_views(r@) == seq![t0@, t1@],
{
    let mut r: Vec<String> = Vec::new();
    r.push(to_owned_string(t0));
    r.push(to_owned_string(t1));
    assert(string_views(r@) =~= seq![t0@, t1@]);
    r
}

fn tags3(t0: &str, t1: &str, t2: &str) -> (r: Vec<String>)
    ensures
        string_views(r@) == seq![t0@, t1@, t2@],
{
    let mut r: Vec<String> = Vec::new();
    r.push(to_owned_string(t0));
    r.push(to_owned_string(t1));
    r.push(to_owned_string(t2));
    assert(string_views(r@) =~= seq![t0@, t1@, t2@]);
    r
}

fn tags4(t0: &str, t1: &str, t2: &str, t3: &str) -> (r: Vec<String>)
    ensures
        string_views(r@) == seq![t0@, t1@, t2@, t3@],
{
    let mut r: Vec<String> = Vec::new();
    r.push(to_owned_string(t0));
    r.push(to_owned_string(t1));
    r.push(to_owned_string(t2));
    r.push(to_owned_string(t3));
    assert(string_views(r@) =~= seq![t0@, t1@, t2@, t3@]);
    r
}

fn tags5(t0: &str, t1: &str, t2: &str, t3: &str, t4: &str) -> (r: Vec<String>)
    ensures
        string_views(r@) == seq![t0@, t1@, t2@, t3@, t4@],
{
    let mut r: Vec<String> = Vec::new();
    r.push(to_owned_string(t0));
    r.push(to_owned_string(t1));
    r.push(to_owned_string(t2));
    r.push(to_owned_string(t3));
    r.push(to_owned_string(t4));
    assert(string_views(r@) =~= seq![t0@, t1@, t2@, t3@, t4@]);
    r
}

fn variant(name: &str, title: &str, description: &str, tags: Vec<String>) -> (v: ModelVariant)
    ensures
        v.name@ == name@,
        v.title@ == title@,
        v.description@ == description@,
        v.tags == tags,
{
    ModelVariant {
        name: to_owned_string(name),
        title: to_owned_string(title),
        description: to_owned_string(description),
        tags,
    }
}

fn family(
    id: &str,
    title: &str,
    subtitle: &str,
    description: &str,
    tags: Vec<String>,
    variants: Vec<ModelVariant>,
) -> (f: ModelFamily)
    ensures
        f.id@ == id@,
        f.title@ == title@,
        f.subtitle@ == subtitle@,
        f.description@ == description@,
        f.tags == tags,
        f.variants == variants,
{
    ModelFamily {
        id: to_owned_string(id),
        title: to_owned_string(title),
        subtitle: to_owned_string(subtitle),
        description: to_owned_string(description),
        tags,
        variants,
    }
}

pub open spec fn llama3_1_text() -> FamilyText {
    FamilyText {
        id: "llama3.1"@,
        title: "Llama 3.1"@,
        subtitle: "Meta general chat models with tool-capable instruct variants"@,
        description: "Balanced general-purpose chat models from Meta. The 8B tag is the practical default for local machines, while 70B and 405B target larger systems."@,
        tags: seq!["chat"@, "tools"@, "general"@, "meta"@],
        variants: seq![
            VariantText { name: "llama3.1:8b"@, title: "8B"@, description: "Recommended local default for everyday chat."@, tags: seq!["recommended"@, "chat"@, "tools"@] },
            VariantText { name: "llama3.1:70b"@, title: "70B"@, description: "Larger model for stronger reasoning and writing."@, tags: seq!["large"@, "chat"@, "tools"@] },
            VariantText { name: "llama3.1:405b"@, title: "405B"@, description: "Very large model for high-memory systems."@, tags: seq!["very large"@, "chat"@] },
        ],
    }
}

fn llama3_1() -> (f: ModelFamily)
    ensures
        family_text(f) == llama3_1_text(),
{
    let mut variants: Vec<ModelVariant> = Vec::new();
    variants.push(variant("llama3.1:8b", "8B", "Recommended local default for everyday chat.", tags3("recommended", "chat", "tools")));
    variants.push(variant("llama3.1:70b", "70B", "Larger model for stronger reasoning and writing.", tags3("large", "chat", "tools")));
    variants.push(variant("llama3.1:405b", "405B", "Very large model for high-memory systems.", tags2("very large", "chat")));
    let f = family(
        "llama3.1",
        "Llama 3.1",
        "Meta general chat models with tool-capable instruct variants",
        "Balanced general-purpose chat models from Meta. The 8B tag is the practical default for local machines, while 70B and 405B target larger systems.",
        tags4("chat", "tools", "general", "meta"),
        variants,
    );
    assert(family_text(f).variants =~= llama3_1_text().variants);
    f
}

pub open spec fn llama3_2_text() -> FamilyText {
    FamilyText {
        id: "llama3.2"@,
        title: "Llama 3.2"@,
        subtitle: "Small Meta models for fast local chat"@,
        description: "Compact Llama models made for responsive local use. Good first downloads when you want speed and lower memory use."@,
        tags: seq!["chat"@, "small"@, "fast"@, "meta"@],
        variants: seq![
            VariantText { name: "llama3.2:1b"@, title: "1B"@, description: "Very small and fast for quick responses."@, tags: seq!["tiny"@, "fast"@, "chat"@] },
            VariantText { name: "llama3.2:3b"@, title: "3B"@, description: "Small but more capable than 1B."@, tags: seq!["recommended"@, "small"@, "chat"@] },
        ],
    }
}

fn llama3_2() -> (f: ModelFamily)
    ensures
        family_text(f) == llama3_2_text(),
{
    let mut variants: Vec<ModelVariant> = Vec::new();
    variants.push(variant("llama3.2:1b", "1B", "Very small and fast for quick responses.", tags3("tiny", "fast", "chat")));
    variants.push(variant("llama3.2:3b", "3B", "Small but more capable than 1B.", tags3("recommended", "small", "chat")));
    let f = family(
        "llama3.2",
        "Llama 3.2",
        "Small Meta models for fast local chat",
        "Compact Llama models made for responsive local use. Good first downloads when you want speed and lower memory use.",
        tags4("chat", "small", "fast", "meta"),
        variants,
    );
    assert(family_text(f).variants =~= llama3_2_text().variants);
    f
}

pub open spec fn llama3_3_text() -> FamilyText {
    FamilyText {
        id: "llama3.3"@,
        title: "Llama 3.3"@,
        subtitle: "Popular 70B Meta model with strong quality for its size"@,
        description: "A newer Llama 70B option that Ollama lists among the popular models. Use this when you want high quality and have enough memory for a large model."@,
        tags: seq!["chat"@, "tools"@, "large"@, "meta"@, "popular"@],
        variants: seq![
            VariantText { name: "llama3.3:70b"@, title: "70B"@, description: "Default Llama 3.3 70B tag."@, tags: seq!["recommended"@, "large"@, "chat"@, "tools"@] },
            VariantText { name: "llama3.3:70b-instruct-q4_K_M"@, title: "70B Q4"@, description: "Quantized instruction variant for large local systems."@, tags: seq!["large"@, "q4"@, "chat"@] },
        ],
    }
}

fn llama3_3() -> (f: ModelFamily)
    ensures
        family_text(f) == llama3_3_text(),
{
    let mut variants: Vec<ModelVariant> = Vec::new();
    variants.push(variant("llama3.3:70b", "70B", "Default Llama 3.3 70B tag.", tags4("recommended", "large", "chat", "tools")));
    variants.push(variant("llama3.3:70b-instruct-q4_K_M", "70B Q4", "Quantized instruction variant for large local systems.", tags3("large", "q4", "chat")));
    let f = family(
        "llama3.3",
        "Llama 3.3",
        "Popular 70B Meta model with strong quality for its size",
        "A newer Llama 70B option that Ollama lists among the popular models. Use this when you want high quality and have enough memory for a large model.",
        tags5("chat", "tools", "large", "meta", "popular"),
        variants,
    );
    assert(family_text(f).variants =~= llama3_3_text().variants);
    f
}

pub open spec fn llama3_text() -> FamilyText {
    FamilyText {
        id: "llama3"@,
        title: "Llama 3"@,
        subtitle: "Older but still heavily used Meta chat models"@,
        description: "Still one of the high-pull Llama families on Ollama. The 8B variant remains a useful baseline when comparing newer local models."@,
        tags: seq!["chat"@, "meta"@, "popular"@],
        variants: seq![
            VariantText { name: "llama3:8b"@, title: "8B"@, description: "Classic local Llama 3 baseline."@, tags: seq!["popular"@, "chat"@] },
            VariantText { name: "llama3:8b-instruct-q4_K_M"@, title: "8B Q4"@, description: "Quantized instruct variant."@, tags: seq!["q4"@, "chat"@] },
            VariantText { name: "llama3:70b"@, title: "70B"@, description: "Large Llama 3 variant."@, tags: seq!["large"@, "chat"@] },
        ],
    }
}

fn llama3() -> (f: ModelFamily)
    ensures
        family_text(f) == llama3_text(),
{
    let mut variants: Vec<ModelVariant> = Vec::new();
    variants.push(variant("llama3:8b", "8B", "Classic local Llama 3 baseline.", tags2("popular", "chat")));
    variants.push(variant("llama3:8b-instruct-q4_K_M", "8B Q4", "Quantized instruct variant.", tags2("q4", "chat")));
    variants.push(variant("llama3:70b", "70B", "Large Llama 3 variant.", tags2("large", "chat")));
    let f = family(
        "llama3",
        "Llama 3",
        "Older but still heavily used Meta chat models",
        "Still one of the high-pull Llama families on Ollama. The 8B variant remains a useful baseline when comparing newer local models.",
        tags3("chat", "meta", "popular"),
        variants,
    );
    assert(family_text(f).variants =~= llama3_text().variants);
    f
}

pub open spec fn deepseek_r1_text() -> FamilyText {
    FamilyText {
        id: "deepseek-r1"@,
        title: "DeepSeek R1"@,
        subtitle: "Popular reasoning model family"@,
        description: "Reasoning-focused models and distilled variants. Smaller tags are useful locally; larger tags need much more memory."@,
        tags: seq!["chat"@, "reasoning"@, "thinking"@],
        variants: seq![
            VariantText { name: "deepseek-r1:1.5b"@, title: "1.5B"@, description: "Tiny reasoning distill for light machines."@, tags: seq!["tiny"@, "reasoning"@] },
            VariantText { name: "deepseek-r1:7b"@, title: "7B"@, description: "Popular local reasoning default."@, tags: seq!["recommended"@, "reasoning"@, "chat"@] },
            VariantText { name: "deepseek-r1:8b"@, title: "8B"@, description: "Qwen3-based refreshed distill."@, tags: seq!["reasoning"@, "chat"@] },
            VariantText { name: "deepseek-r1:14b"@, title: "14B"@, description: "Stronger reasoning on mid-range hardware."@, tags: seq!["medium"@, "reasoning"@] },
            VariantText { name: "deepseek-r1:32b"@, title: "32B"@, description: "High quality reasoning for large local setups."@, tags: seq!["large"@, "reasoning"@] },
            VariantText { name: "deepseek-r1:70b"@, title: "70B"@, description: "Large reasoning model for high-memory systems."@, tags: seq!["large"@, "reasoning"@] },
        ],
    }
}

fn deepseek_r1() -> (f: ModelFamily)
    ensures
        family_text(f) == deepseek_r1_text(),
{
    let mut variants: Vec<ModelVariant> = Vec::new();
    variants.push(variant("deepseek-r1:1.5b", "1.5B", "Tiny reasoning distill for light machines.", tags2("tiny", "reasoning")));
    variants.push(variant("deepseek-r1:7b", "7B", "Popular local reasoning default.", tags3("recommended", "reasoning", "chat")));
    variants.push(variant("deepseek-r1:8b", "8B", "Qwen3-based refreshed distill.", tags2("reasoning", "chat")));
    variants.push(variant("deepseek-r1:14b", "14B", "Stronger reasoning on mid-range hardware.", tags2("medium", "reasoning")));
    variants.push(variant("deepseek-r1:32b", "32B", "High quality reasoning for large local setups.", tags2("large", "reasoning")));
    variants.push(variant("deepseek-r1:70b", "70B", "Large reasoning model for high-memory systems.", tags2("large", "reasoning")));
    let f = family(
        "deepseek-r1",
        "DeepSeek R1",
        "Popular reasoning model family",
        "Reasoning-focused models and distilled variants. Smaller tags are useful locally; larger tags need much more memory.",
        tags3("chat", "reasoning", "thinking"),
        variants,
    );
    assert(family_text(f).variants =~= deepseek_r1_text().variants);
    f
}

pub open spec fn gemma3_text() -> FamilyText {
    FamilyText {
        id: "gemma3"@,
        title: "Gemma 3"@,
        subtitle: "Efficient Google models with small and vision-capable sizes"@,
        description: "A broad family that scales from tiny local assistants to larger, more capable models. Useful when you want efficient everyday chat."@,
        tags: seq!["chat"@, "vision"@, "efficient"@, "google"@],
        variants: seq![
            VariantText { name: "gemma3:270m"@, title: "270M"@, description: "Very small instruction model."@, tags: seq!["tiny"@, "fast"@] },
            VariantText { name: "gemma3:1b"@, title: "1B"@, description: "Small and responsive local chat."@, tags: seq!["small"@, "chat"@] },
            VariantText { name: "gemma3:4b"@, title: "4B"@, description: "Recommended local balance for Gemma."@, tags: seq!["recommended"@, "chat"@, "vision"@] },
            VariantText { name: "gemma3:12b"@, title: "12B"@, description: "Better quality for machines with more memory."@, tags: seq!["medium"@, "chat"@, "vision"@] },
            VariantText { name: "gemma3:27b"@, title: "27B"@, description: "Large Gemma model for stronger answers."@, tags: seq!["large"@, "chat"@, "vision"@] },
        ],
    }
}

fn gemma3() -> (f: ModelFamily)
    ensures
        family_text(f) == gemma3_text(),
{
    let mut variants: Vec<ModelVariant> = Vec::new();
    variants.push(variant("gemma3:270m", "270M", "Very small instruction model.", tags2("tiny", "fast")));
    variants.push(variant("gemma3:1b", "1B", "Small and responsive local chat.", tags2("small", "chat")));
    variants.push(variant("gemma3:4b", "4B", "Recommended local balance for Gemma.", tags3("recommended", "chat", "vision")));
    variants.push(variant("gemma3:12b", "12B", "Better quality for machines with more memory.", tags3("medium", "chat", "vision")));
    variants.push(variant("gemma3:27b", "27B", "Large Gemma model for stronger answers.", tags3("large", "chat", "vision")));
    let f = family(
        "gemma3",
        "Gemma 3",
        "Efficient Google models with small and vision-capable sizes",
        "A broad family that scales from tiny local assistants to larger, more capable models. Useful when you want efficient everyday chat.",
        tags4("chat", "vision", "efficient", "google"),
        variants,
    );
    assert(family_text(f).variants =~= gemma3_text().variants);
    f
}

pub open spec fn gemma3n_text() -> FamilyText {
    FamilyText {
        id: "gemma3n"@,
        title: "Gemma 3n"@,
        subtitle: "Efficient Gemma models for everyday devices"@,
        description: "Compact Gemma 3n variants designed for efficient execution on laptops and everyday devices. Good when you want newer Gemma behavior without a huge model."@,
        tags: seq!["chat"@, "small"@, "efficient"@, "google"@],
        variants: seq![
            VariantText { name: "gemma3n:e2b"@, title: "E2B"@, description: "Smaller efficient Gemma 3n variant."@, tags: seq!["small"@, "efficient"@] },
            VariantText { name: "gemma3n:e4b"@, title: "E4B"@, description: "More capable efficient Gemma 3n variant."@, tags: seq!["recommended"@, "small"@, "efficient"@] },
            VariantText { name: "gemma3n:e4b-it-q4_K_M"@, title: "E4B IT Q4"@, description: "Quantized instruction-tuned tag."@, tags: seq!["q4"@, "chat"@] },
        ],
    }
}

fn gemma3n() -> (f: ModelFamily)
    ensures
        family_text(f) == gemma3n_text(),
{
    let mut variants: Vec<ModelVariant> = Vec::new();
    variants.push(variant("gemma3n:e2b", "E2B", "Smaller efficient Gemma 3n variant.", tags2("small", "efficient")));
    variants.push(variant("gemma3n:e4b", "E4B", "More capable efficient Gemma 3n variant.", tags3("recommended", "small", "efficient")));
    variants.push(variant("gemma3n:e4b-it-q4_K_M", "E4B IT Q4", "Quantized instruction-tuned tag.", tags2("q4", "chat")));
    let f = family(
        "gemma3n",
        "Gemma 3n",
        "Efficient Gemma models for everyday devices",
        "Compact Gemma 3n variants designed for efficient execution on laptops and everyday devices. Good when you want newer Gemma behavior without a huge model.",
        tags4("chat", "small", "efficient", "google"),
        variants,
    );
    assert(family_text(f).variants =~= gemma3n_text().variants);
    f
}

pub open spec fn gemma2_text() -> FamilyText {
    FamilyText {
        id: "gemma2"@,
        title: "Gemma 2"@,
        subtitle: "Very popular efficient Google model family"@,
        description: "Older than Gemma 3, but still high on Ollama's popularity list. Useful for comparing small and medium Google models."@,
        tags: seq!["chat"@, "google"@, "popular"@],
        variants: seq![
            VariantText { name: "gemma2:2b"@, title: "2B"@, description: "Small Gemma 2 model."@, tags: seq!["small"@, "chat"@] },
            VariantText { name: "gemma2:9b"@, title: "9B"@, description: "Balanced Gemma 2 model."@, tags: seq!["recommended"@, "chat"@] },
            VariantText { name: "gemma2:27b"@, title: "27B"@, description: "Large Gemma 2 model."@, tags: seq!["large"@, "chat"@] },
        ],
    }
}

fn gemma2() -> (f: ModelFamily)
    ensures
        family_text(f) == gemma2_text(),
{
    let mut variants: Vec<ModelVariant> = Vec::new();
    variants.push(variant("gemma2:2b", "2B", "Small Gemma 2 model.", tags2("small", "chat")));
    variants.push(variant("gemma2:9b", "9B", "Balanced Gemma 2 model.", tags2("recommended", "chat")));
    variants.push(variant("gemma2:27b", "27B", "Large Gemma 2 model.", tags2("large", "chat")));
    let f = family(
        "gemma2",
        "Gemma 2",
        "Very popular efficient Google model family",
        "Older than Gemma 3, but still high on Ollama's popularity list. Useful for comparing small and medium Google models.",
        tags3("chat", "google", "popular"),
        variants,
    );
    assert(family_text(f).variants =~= gemma2_text().variants);
    f
}

pub open spec fn gemma4_text() -> FamilyText {
    FamilyText {
        id: "gemma4"@,
        title: "Gemma 4"@,
        subtitle: "Newer Gemma family with local and larger variants"@,
        description: "Recent Gemma models with compact expert variants and larger instruction tags. Good to try when you want the newest Google family available in Ollama."@,
        tags: seq!["chat"@, "google"@, "new"@],
        variants: seq![
            VariantText { name: "gemma4:e2b"@, title: "E2B"@, description: "Compact expert variant for lighter local use."@, tags: seq!["small"@, "chat"@] },
            VariantText { name: "gemma4:e4b"@, title: "E4B"@, description: "Small expert variant with more capacity."@, tags: seq!["small"@, "chat"@] },
            VariantText { name: "gemma4:26b"@, title: "26B"@, description: "Larger instruction model."@, tags: seq!["large"@, "chat"@] },
            VariantText { name: "gemma4:31b"@, title: "31B"@, description: "Large Gemma 4 variant for strong quality."@, tags: seq!["large"@, "chat"@] },
        ],
    }
}

fn gemma4() -> (f: ModelFamily)
    ensures
        family_text(f) == gemma4_text(),
{
    let mut variants: Vec<ModelVariant> = Vec::new();
    variants.push(variant("gemma4:e2b", "E2B", "Compact expert variant for lighter local use.", tags2("small", "chat")));
    variants.push(variant("gemma4:e4b", "E4B", "Small expert variant with more capacity.", tags2("small", "chat")));
    variants.push(variant("gemma4:26b", "26B", "Larger instruction model.", tags2("large", "chat")));
    variants.push(variant("gemma4:31b", "31B", "Large Gemma 4 variant for strong quality.", tags2("large", "chat")));
    let f = family(
        "gemma4",
        "Gemma 4",
        "Newer Gemma family with local and larger variants",
        "Recent Gemma models with compact expert variants and larger instruction tags. Good to try when you want the newest Google family available in Ollama.",
        tags3("chat", "google", "new"),
        variants,
    );
    assert(family_text(f).variants =~= gemma4_text().variants);
    f
}

pub open spec fn translategemma_text() -> FamilyText {
    FamilyText {
        id: "translategemma"@,
        title: "TranslateGemma"@,
        subtitle: "Recent Gemma translation models"@,
        description: "A newer Gemma-based translation family for communication across many languages. Useful when translation is the main workflow."@,
        tags: seq!["translation"@, "multilingual"@, "google"@, "new"@],
        variants: seq![
            VariantText { name: "translategemma:4b"@, title: "4B"@, description: "Small translation model."@, tags: seq!["recommended"@, "translation"@] },
            VariantText { name: "translategemma:12b"@, title: "12B"@, description: "Medium translation model."@, tags: seq!["translation"@, "medium"@] },
            VariantText { name: "translategemma:27b"@, title: "27B"@, description: "Large translation model."@, tags: seq!["translation"@, "large"@] },
        ],
    }
}

fn translategemma() -> (f: ModelFamily)
    ensures
        family_text(f) == translategemma_text(),
{
    let mut variants: Vec<ModelVariant> = Vec::new();
    variants.push(variant("translategemma:4b", "4B", "Small translation model.", tags2("recommended", "translation")));
    variants.push(variant("translategemma:12b", "12B", "Medium translation model.", tags2("translation", "medium")));
    variants.push(variant("translategemma:27b", "27B", "Large translation model.", tags2("translation", "large")));
    let f = family(
        "translategemma",
        "TranslateGemma",
        "Recent Gemma translation models",
        "A newer Gemma-based translation family for communication across many languages. Useful when translation is the main workflow.",
        tags4("translation", "multilingual", "google", "new"),
        variants,
    );
    assert(family_text(f).variants =~= translategemma_text().variants);
    f
}

pub open spec fn medgemma_text() -> FamilyText {
    FamilyText {
        id: "medgemma"@,
        title: "MedGemma"@,
        subtitle: "Recent specialized Gemma medical models"@,
        description: "Specialized Gemma variants for medical text and image comprehension. They are included for specialized workflows and should not replace professional medical judgment."@,
        tags: seq!["specialized"@, "medical"@, "vision"@, "new"@],
        variants: seq![
            VariantText { name: "medgemma:4b"@, title: "4B"@, description: "Small specialized medical model."@, tags: seq!["specialized"@, "vision"@] },
            VariantText { name: "medgemma:27b"@, title: "27B"@, description: "Large specialized medical model."@, tags: seq!["large"@, "specialized"@] },
        ],
    }
}

fn medgemma() -> (f: ModelFamily)
    ensures
        family_text(f) == medgemma_text(),
{
    let mut variants: Vec<ModelVariant> = Vec::new();
    variants.push(variant("medgemma:4b", "4B", "Small specialized medical model.", tags2("specialized", "vision")));
    variants.push(variant("medgemma:27b", "27B", "Large specialized medical model.", tags2("large", "specialized")));
    let f = family(
        "medgemma",
        "MedGemma",
        "Recent specialized Gemma medical models",
        "Specialized Gemma variants for medical text and image comprehension. They are included for specialized workflows and should not replace professional medical judgment.",
        tags4("specialized", "medical", "vision", "new"),
        variants,
    );
    assert(family_text(f).variants =~= medgemma_text().variants);
    f
}

pub open spec fn qwen2_5_text() -> FamilyText {
    FamilyText {
        id: "qwen2.5"@,
        title: "Qwen 2.5"@,
        subtitle: "Strong multilingual general models"@,
        description: "Popular multilingual chat models with many sizes. The 7B tag is a reliable local default, and larger tags improve quality when hardware allows."@,
        tags: seq!["chat"@, "multilingual"@, "tools"@],
        variants: seq![
            VariantText { name: "qwen2.5:0.5b"@, title: "0.5B"@, description: "Tiny multilingual model."@, tags: seq!["tiny"@, "fast"@] },
            VariantText { name: "qwen2.5:1.5b"@, title: "1.5B"@, description: "Small multilingual chat."@, tags: seq!["small"@, "chat"@] },
            VariantText { name: "qwen2.5:3b"@, title: "3B"@, description: "Lightweight everyday chat."@, tags: seq!["small"@, "chat"@] },
            VariantText { name: "qwen2.5:7b"@, title: "7B"@, description: "Recommended local default."@, tags: seq!["recommended"@, "chat"@, "tools"@] },
            VariantText { name: "qwen2.5:14b"@, title: "14B"@, description: "Stronger multilingual answers."@, tags: seq!["medium"@, "chat"@] },
            VariantText { name: "qwen2.5:32b"@, title: "32B"@, description: "Large local model for better quality."@, tags: seq!["large"@, "chat"@] },
            VariantText { name: "qwen2.5:72b"@, title: "72B"@, description: "Very large multilingual model."@, tags: seq!["very large"@, "chat"@] },
        ],
    }
}

fn qwen2_5() -> (f: ModelFamily)
    ensures
        family_text(f) == qwen2_5_text(),
{
    let mut variants: Vec<ModelVariant> = Vec::new();
    variants.push(variant("qwen2.5:0.5b", "0.5B", "Tiny multilingual model.", tags2("tiny", "fast")));
    variants.push(variant("qwen2.5:1.5b", "1.5B", "Small multilingual chat.", tags2("small", "chat")));
    variants.push(variant("qwen2.5:3b", "3B", "Lightweight everyday chat.", tags2("small", "chat")));
    variants.push(variant("qwen2.5:7b", "7B", "Recommended local default.", tags3("recommended", "chat", "tools")));
    variants.push(variant("qwen2.5:14b", "14B", "Stronger multilingual answers.", tags2("medium", "chat")));
    variants.push(variant("qwen2.5:32b", "32B", "Large local model for better quality.", tags2("large", "chat")));
    variants.push(variant("qwen2.5:72b", "72B", "Very large multilingual model.", tags2("very large", "chat")));
    let f = family(
        "qwen2.5",
        "Qwen 2.5",
        "Strong multilingual general models",
        "Popular multilingual chat models with many sizes. The 7B tag is a reliable local default, and larger tags improve quality when hardware allows.",
        tags3("chat", "multilingual", "tools"),
        variants,
    );
    assert(family_text(f).variants =~= qwen2_5_text().variants);
    f
}

pub open spec fn qwen3_text() -> FamilyText {
    FamilyText {
        id: "qwen3"@,
        title: "Qwen 3"@,
        subtitle: "Popular multilingual reasoning models"@,
        description: "Reasoning-capable Qwen models with small dense tags and larger mixture-of-experts tags. Strong choice for multilingual work."@,
        tags: seq!["chat"@, "reasoning"@, "multilingual"@, "thinking"@],
        variants: seq![
            VariantText { name: "qwen3:0.6b"@, title: "0.6B"@, description: "Tiny Qwen 3 chat."@, tags: seq!["tiny"@, "fast"@] },
            VariantText { name: "qwen3:1.7b"@, title: "1.7B"@, description: "Small reasoning model."@, tags: seq!["small"@, "thinking"@] },
            VariantText { name: "qwen3:4b"@, title: "4B"@, description: "Recommended small reasoning model."@, tags: seq!["recommended"@, "thinking"@] },
            VariantText { name: "qwen3:8b"@, title: "8B"@, description: "Balanced reasoning and chat."@, tags: seq!["chat"@, "thinking"@] },
            VariantText { name: "qwen3:14b"@, title: "14B"@, description: "Stronger reasoning on mid-range hardware."@, tags: seq!["medium"@, "thinking"@] },
            VariantText { name: "qwen3:30b-a3b"@, title: "30B A3B"@, description: "Mixture-of-experts model with active 3B path."@, tags: seq!["moe"@, "thinking"@] },
            VariantText { name: "qwen3:32b"@, title: "32B"@, description: "Large dense Qwen 3 model."@, tags: seq!["large"@, "thinking"@] },
        ],
    }
}

fn qwen3() -> (f: ModelFamily)
    ensures
        family_text(f) == qwen3_text(),
{
    let mut variants: Vec<ModelVariant> = Vec::new();
    variants.push(variant("qwen3:0.6b", "0.6B", "Tiny Qwen 3 chat.", tags2("tiny", "fast")));
    variants.push(variant("qwen3:1.7b", "1.7B", "Small reasoning model.", tags2("small", "thinking")));
    variants.push(variant("qwen3:4b", "4B", "Recommended small reasoning model.", tags2("recommended", "thinking")));
    variants.push(variant("qwen3:8b", "8B", "Balanced reasoning and chat.", tags2("chat", "thinking")));
    variants.push(variant("qwen3:14b", "14B", "Stronger reasoning on mid-range hardware.", tags2("medium", "thinking")));
    variants.push(variant("qwen3:30b-a3b", "30B A3B", "Mixture-of-experts model with active 3B path.", tags2("moe", "thinking")));
    variants.push(variant("qwen3:32b", "32B", "Large dense Qwen 3 model.", tags2("large", "thinking")));
    let f = family(
        "qwen3",
        "Qwen 3",
        "Popular multilingual reasoning models",
        "Reasoning-capable Qwen models with small dense tags and larger mixture-of-experts tags. Strong choice for multilingual work.",
        tags4("chat", "reasoning", "multilingual", "thinking"),
        variants,
    );
    assert(family_text(f).variants =~= qwen3_text().variants);
    f
}

pub open spec fn qwen3_5_text() -> FamilyText {
    FamilyText {
        id: "qwen3.5"@,
        title: "Qwen 3.5"@,
        subtitle: "Newer Qwen family with compact and MoE tags"@,
        description: "Recent Qwen models with small local sizes and larger expert variants. Useful for multilingual chat, coding and reasoning."@,
        tags: seq!["chat"@, "reasoning"@, "coding"@, "new"@],
        variants: seq![
            VariantText { name: "qwen3.5:0.8b"@, title: "0.8B"@, description: "Tiny fast model."@, tags: seq!["tiny"@, "fast"@] },
            VariantText { name: "qwen3.5:2b"@, title: "2B"@, description: "Small general model."@, tags: seq!["small"@, "chat"@] },
            VariantText { name: "qwen3.5:4b"@, title: "4B"@, description: "Practical recent Qwen model for local chat."@, tags: seq!["recommended"@, "chat"@] },
            VariantText { name: "qwen3.5:9b"@, title: "9B"@, description: "Stronger recent Qwen model for local systems."@, tags: seq!["chat"@, "thinking"@] },
            VariantText { name: "qwen3.5:27b"@, title: "27B"@, description: "Large dense model with coding variants."@, tags: seq!["large"@, "coding"@] },
            VariantText { name: "qwen3.5:35b-a3b"@, title: "35B A3B"@, description: "Mixture-of-experts model for larger local setups."@, tags: seq!["moe"@, "coding"@] },
        ],
    }
}

fn qwen3_5() -> (f: ModelFamily)
    ensures
        family_text(f) == qwen3_5_text(),
{
    let mut variants: Vec<ModelVariant> = Vec::new();
    variants.push(variant("qwen3.5:0.8b", "0.8B", "Tiny fast model.", tags2("tiny", "fast")));
    variants.push(variant("qwen3.5:2b", "2B", "Small general model.", tags2("small", "chat")));
    variants.push(variant("qwen3.5:4b", "4B", "Practical recent Qwen model for local chat.", tags2("recommended", "chat")));
    variants.push(variant("qwen3.5:9b", "9B", "Stronger recent Qwen model for local systems.", tags2("chat", "thinking")));
    variants.push(variant("qwen3.5:27b", "27B", "Large dense model with coding variants.", tags2("large", "coding")));
    variants.push(variant("qwen3.5:35b-a3b", "35B A3B", "Mixture-of-experts model for larger local setups.", tags2("moe", "coding")));
    let f = family(
        "qwen3.5",
        "Qwen 3.5",
        "Newer Qwen family with compact and MoE tags",
        "Recent Qwen models with small local sizes and larger expert variants. Useful for multilingual chat, coding and reasoning.",
        tags4("chat", "reasoning", "coding", "new"),
        variants,
    );
    assert(family_text(f).variants =~= qwen3_5_text().variants);
    f
}

pub open spec fn qwen3_6_text() -> FamilyText {
    FamilyText {
        id: "qwen3.6"@,
        title: "Qwen 3.6"@,
        subtitle: "Recent Qwen upgrade for coding and thinking"@,
        description: "A newer Qwen generation shown in Ollama's recent model listings. It focuses on agentic coding and better thinking preservation."@,
        tags: seq!["chat"@, "coding"@, "thinking"@, "new"@],
        variants: seq![
            VariantText { name: "qwen3.6:27b"@, title: "27B"@, description: "Dense recent Qwen model."@, tags: seq!["large"@, "chat"@, "thinking"@] },
            VariantText { name: "qwen3.6:27b-q4_K_M"@, title: "27B Q4"@, description: "Quantized dense recent Qwen model."@, tags: seq!["q4"@, "coding"@, "thinking"@] },
            VariantText { name: "qwen3.6:35b-a3b"@, title: "35B A3B"@, description: "Mixture-of-experts recent Qwen model."@, tags: seq!["moe"@, "coding"@, "thinking"@] },
            VariantText { name: "qwen3.6:35b-a3b-q4_K_M"@, title: "35B A3B Q4"@, description: "Quantized MoE variant."@, tags: seq!["q4"@, "moe"@, "coding"@] },
        ],
    }
}

fn qwen3_6() -> (f: ModelFamily)
    ensures
        family_text(f) == qwen3_6_text(),
{
    let mut variants: Vec<ModelVariant> = Vec::new();
    variants.push(variant("qwen3.6:27b", "27B", "Dense recent Qwen model.", tags3("large", "chat", "thinking")));
    variants.push(variant("qwen3.6:27b-q4_K_M", "27B Q4", "Quantized dense recent Qwen model.", tags3("q4", "coding", "thinking")));
    variants.push(variant("qwen3.6:35b-a3b", "35B A3B", "Mixture-of-experts recent Qwen model.", tags3("moe", "coding", "thinking")));
    variants.push(variant("qwen3.6:35b-a3b-q4_K_M", "35B A3B Q4", "Quantized MoE variant.", tags3("q4", "moe", "coding")));
    let f = family(
        "qwen3.6",
        "Qwen 3.6",
        "Recent Qwen upgrade for coding and thinking",
        "A newer Qwen generation shown in Ollama's recent model listings. It focuses on agentic coding and better thinking preservation.",
        tags4("chat", "coding", "thinking", "new"),
        variants,
    );
    assert(family_text(f).variants =~= qwen3_6_text().variants);
    f
}

pub open spec fn gpt_oss_text() -> FamilyText {
    FamilyText {
        id: "gpt-oss"@,
        title: "GPT OSS"@,
        subtitle: "Open-weight GPT-style models"@,
        description: "Open-weight models intended for capable local and workstation setups. The 20B tag is the practical local starting point."@,
        tags: seq!["chat"@, "reasoning"@, "open weights"@],
        variants: seq![
            VariantText { name: "gpt-oss:20b"@, title: "20B"@, description: "Recommended local GPT OSS variant."@, tags: seq!["recommended"@, "chat"@] },
            VariantText { name: "gpt-oss:120b"@, title: "120B"@, description: "Very large GPT OSS variant."@, tags: seq!["very large"@, "chat"@] },
        ],
    }
}

fn gpt_oss() -> (f: ModelFamily)
    ensures
        family_text(f) == gpt_oss_text(),
{
    let mut variants: Vec<ModelVariant> = Vec::new();
    variants.push(variant("gpt-oss:20b", "20B", "Recommended local GPT OSS variant.", tags2("recommended", "chat")));
    variants.push(variant("gpt-oss:120b", "120B", "Very large GPT OSS variant.", tags2("very large", "chat")));
    let f = family(
        "gpt-oss",
        "GPT OSS",
        "Open-weight GPT-style models",
        "Open-weight models intended for capable local and workstation setups. The 20B tag is the practical local starting point.",
        tags3("chat", "reasoning", "open weights"),
        variants,
    );
    assert(family_text(f).variants =~= gpt_oss_text().variants);
    f
}

pub open spec fn mistral_text() -> FamilyText {
    FamilyText {
        id: "mistral"@,
        title: "Mistral"@,
        subtitle: "Fast general chat model"@,
        description: "Classic Mistral 7B family. Still useful for fast local chat and lightweight instruction tasks."@,
        tags: seq!["chat"@, "fast"@],
        variants: seq![
            VariantText { name: "mistral:7b"@, title: "7B"@, description: "Default Mistral local chat model."@, tags: seq!["recommended"@, "chat"@] },
            VariantText { name: "mistral:7b-instruct-v0.3-q4_K_M"@, title: "7B Instruct v0.3 Q4"@, description: "Quantized instruction variant."@, tags: seq!["instruct"@, "q4"@, "chat"@] },
        ],
    }
}

fn mistral() -> (f: ModelFamily)
    ensures
        family_text(f) == mistral_text(),
{
    let mut variants: Vec<ModelVariant> = Vec::new();
    variants.push(variant("mistral:7b", "7B", "Default Mistral local chat model.", tags2("recommended", "chat")));
    variants.push(variant("mistral:7b-instruct-v0.3-q4_K_M", "7B Instruct v0.3 Q4", "Quantized instruction variant.", tags3("instruct", "q4", "chat")));
    let f = family(
        "mistral",
        "Mistral",
        "Fast general chat model",
        "Classic Mistral 7B family. Still useful for fast local chat and lightweight instruction tasks.",
        tags2("chat", "fast"),
        variants,
    );
    assert(family_text(f).variants =~= mistral_text().variants);
    f
}

pub open spec fn mistral_nemo_text() -> FamilyText {
    FamilyText {
        id: "mistral-nemo"@,
        title: "Mistral Nemo"@,
        subtitle: "Popular 12B Mistral model with long context"@,
        description: "A high-pull Mistral family built with NVIDIA collaboration. Useful as a stronger local alternative to classic Mistral 7B."@,
        tags: seq!["chat"@, "tools"@, "mistral"@, "popular"@],
        variants: seq![
            VariantText { name: "mistral-nemo:12b"@, title: "12B"@, description: "Default Mistral Nemo model."@, tags: seq!["recommended"@, "medium"@, "chat"@] },
            VariantText { name: "mistral-nemo:12b-instruct-2407-q4_K_M"@, title: "12B Q4"@, description: "Quantized instruction variant."@, tags: seq!["q4"@, "chat"@] },
        ],
    }
}

fn mistral_nemo() -> (f: ModelFamily)
    ensures
        family_text(f) == mistral_nemo_text(),
{
    let mut variants: Vec<ModelVariant> = Vec::new();
    variants.push(variant("mistral-nemo:12b", "12B", "Default Mistral Nemo model.", tags3("recommended", "medium", "chat")));
    variants.push(variant("mistral-nemo:12b-instruct-2407-q4_K_M", "12B Q4", "Quantized instruction variant.", tags2("q4", "chat")));
    let f = family(
        "mistral-nemo",
        "Mistral Nemo",
        "Popular 12B Mistral model with long context",
        "A high-pull Mistral family built with NVIDIA collaboration. Useful as a stronger local alternative to classic Mistral 7B.",
        tags4("chat", "tools", "mistral", "popular"),
        variants,
    );
    assert(family_text(f).variants =~= mistral_nemo_text().variants);
    f
}

pub open spec fn mistral_small_text() -> FamilyText {
    FamilyText {
        id: "mistral-small"@,
        title: "Mistral Small"@,
        subtitle: "Popular 22B and 24B Mistral Small models"@,
        description: "A widely used Mistral family below 70B. Good for stronger local chat when 7B models feel too small."@,
        tags: seq!["chat"@, "tools"@, "mistral"@, "popular"@],
        variants: seq![
            VariantText { name: "mistral-small:22b"@, title: "22B"@, description: "Earlier Mistral Small tag."@, tags: seq!["large"@, "chat"@] },
            VariantText { name: "mistral-small:24b"@, title: "24B"@, description: "Newer Mistral Small tag."@, tags: seq!["recommended"@, "large"@, "chat"@] },
            VariantText { name: "mistral-small:24b-instruct-2501-q4_K_M"@, title: "24B Q4"@, description: "Quantized instruction variant."@, tags: seq!["q4"@, "chat"@] },
        ],
    }
}

fn mistral_small() -> (f: ModelFamily)
    ensures
        family_text(f) == mistral_small_text(),
{
    let mut variants: Vec<ModelVariant> = Vec::new();
    variants.push(variant("mistral-small:22b", "22B", "Earlier Mistral Small tag.", tags2("large", "chat")));
    variants.push(variant("mistral-small:24b", "24B", "Newer Mistral Small tag.", tags3("recommended", "large", "chat")));
    variants.push(variant("mistral-small:24b-instruct-2501-q4_K_M", "24B Q4", "Quantized instruction variant.", tags2("q4", "chat")));
    let f = family(
        "mistral-small",
        "Mistral Small",
        "Popular 22B and 24B Mistral Small models",
        "A widely used Mistral family below 70B. Good for stronger local chat when 7B models feel too small.",
        tags4("chat", "tools", "mistral", "popular"),
        variants,
    );
    assert(family_text(f).variants =~= mistral_small_text().variants);
    f
}

pub open spec fn mistral_small3_2_text() -> FamilyText {
    FamilyText {
        id: "mistral-small3.2"@,
        title: "Mistral Small 3.2"@,
        subtitle: "Modern 24B Mistral instruction model"@,
        description: "A newer 24B Mistral model for stronger general chat when you have enough memory."@,
        tags: seq!["chat"@, "vision"@, "mistral"@],
        variants: seq![
            VariantText { name: "mistral-small3.2:24b"@, title: "24B"@, description: "Default 24B instruction model."@, tags: seq!["large"@, "chat"@] },
            VariantText { name: "mistral-small3.2:24b-instruct-2506-q4_K_M"@, title: "24B Q4"@, description: "Quantized instruction variant."@, tags: seq!["large"@, "q4"@, "chat"@] },
        ],
    }
}

fn mistral_small3_2() -> (f: ModelFamily)
    ensures
        family_text(f) == mistral_small3_2_text(),
{
    let mut variants: Vec<ModelVariant> = Vec::new();
    variants.push(variant("mistral-small3.2:24b", "24B", "Default 24B instruction model.", tags2("large", "chat")));
    variants.push(variant("mistral-small3.2:24b-instruct-2506-q4_K_M", "24B Q4", "Quantized instruction variant.", tags3("large", "q4", "chat")));
    let f = family(
        "mistral-small3.2",
        "Mistral Small 3.2",
        "Modern 24B Mistral instruction model",
        "A newer 24B Mistral model for stronger general chat when you have enough memory.",
        tags3("chat", "vision", "mistral"),
        variants,
    );
    assert(family_text(f).variants =~= mistral_small3_2_text().variants);
    f
}

pub open spec fn mistral_medium_3_5_text() -> FamilyText {
    FamilyText {
        id: "mistral-medium-3.5"@,
        title: "Mistral Medium 3.5"@,
        subtitle: "Recent 128B flagship Mistral model"@,
        description: "A recent Mistral model shown in Ollama's newest listings. It is large, but useful to expose for users with workstation or remote Ollama providers."@,
        tags: seq!["chat"@, "vision"@, "tools"@, "thinking"@, "new"@],
        variants: seq![
            VariantText { name: "mistral-medium-3.5:128b"@, title: "128B"@, description: "Default Mistral Medium 3.5 tag."@, tags: seq!["very large"@, "chat"@] },
            VariantText { name: "mistral-medium-3.5:128b-q4_K_M"@, title: "128B Q4"@, description: "Quantized large Mistral Medium tag."@, tags: seq!["q4"@, "very large"@] },
        ],
    }
}

fn mistral_medium_3_5() -> (f: ModelFamily)
    ensures
        family_text(f) == mistral_medium_3_5_text(),
{
    let mut variants: Vec<ModelVariant> = Vec::new();
    variants.push(variant("mistral-medium-3.5:128b", "128B", "Default Mistral Medium 3.5 tag.", tags2("very large", "chat")));
    variants.push(variant("mistral-medium-3.5:128b-q4_K_M", "128B Q4", "Quantized large Mistral Medium tag.", tags2("q4", "very large")));
    let f = family(
        "mistral-medium-3.5",
        "Mistral Medium 3.5",
        "Recent 128B flagship Mistral model",
        "A recent Mistral model shown in Ollama's newest listings. It is large, but useful to expose for users with workstation or remote Ollama providers.",
        tags5("chat", "vision", "tools", "thinking", "new"),
        variants,
    );
    assert(family_text(f).variants =~= mistral_medium_3_5_text().variants);
    f
}

pub open spec fn ministral_3_text() -> FamilyText {
    FamilyText {
        id: "ministral-3"@,
        title: "Ministral 3"@,
        subtitle: "Recent edge-friendly Mistral family"@,
        description: "A newer Mistral family designed for edge deployment with 3B, 8B and 14B sizes. Good fit for laptops and local-first use."@,
        tags: seq!["chat"@, "vision"@, "tools"@, "new"@, "mistral"@],
        variants: seq![
            VariantText { name: "ministral-3:3b"@, title: "3B"@, description: "Small edge-friendly model."@, tags: seq!["small"@, "fast"@] },
            VariantText { name: "ministral-3:8b"@, title: "8B"@, description: "Balanced local Ministral model."@, tags: seq!["recommended"@, "chat"@] },
            VariantText { name: "ministral-3:14b"@, title: "14B"@, description: "Stronger local Ministral model."@, tags: seq!["medium"@, "chat"@] },
        ],
    }
}

fn ministral_3() -> (f: ModelFamily)
    ensures
        family_text(f) == ministral_3_text(),
{
    let mut variants: Vec<ModelVariant> = Vec::new();
    variants.push(variant("ministral-3:3b", "3B", "Small edge-friendly model.", tags2("small", "fast")));
    variants.push(variant("ministral-3:8b", "8B", "Balanced local Ministral model.", tags2("recommended", "chat")));
    variants.push(variant("ministral-3:14b", "14B", "Stronger local Ministral model.", tags2("medium", "chat")));
    let f = family(
        "ministral-3",
        "Ministral 3",
        "Recent edge-friendly Mistral family",
        "A newer Mistral family designed for edge deployment with 3B, 8B and 14B sizes. Good fit for laptops and local-first use.",
        tags5("chat", "vision", "tools", "new", "mistral"),
        variants,
    );
    assert(family_text(f).variants =~= ministral_3_text().variants);
    f
}

pub open spec fn phi4_text() -> FamilyText {
    FamilyText {
        id: "phi4"@,
        title: "Phi 4"@,
        subtitle: "Compact Microsoft model for reasoning and chat"@,
        description: "A compact 14B model that works well for practical local assistant tasks."@,
        tags: seq!["chat"@, "reasoning"@, "microsoft"@],
        variants: seq![
            VariantText { name: "phi4:14b"@, title: "14B"@, description: "Default Phi 4 model."@, tags: seq!["recommended"@, "chat"@] },
            VariantText { name: "phi4:14b-q4_K_M"@, title: "14B Q4"@, description: "Quantized Phi 4 variant."@, tags: seq!["q4"@, "chat"@] },
        ],
    }
}

fn phi4() -> (f: ModelFamily)
    ensures
        family_text(f) == phi4_text(),
{
    let mut variants: Vec<ModelVariant> = Vec::new();
    variants.push(variant("phi4:14b", "14B", "Default Phi 4 model.", tags2("recommended", "chat")));
    variants.push(variant("phi4:14b-q4_K_M", "14B Q4", "Quantized Phi 4 variant.", tags2("q4", "chat")));
    let f = family(
        "phi4",
        "Phi 4",
        "Compact Microsoft model for reasoning and chat",
        "A compact 14B model that works well for practical local assistant tasks.",
        tags3("chat", "reasoning", "microsoft"),
        variants,
    );
    assert(family_text(f).variants =~= phi4_text().variants);
    f
}

pub open spec fn phi4_reasoning_text() -> FamilyText {
    FamilyText {
        id: "phi4-reasoning"@,
        title: "Phi 4 Reasoning"@,
        subtitle: "Microsoft reasoning model in a compact 14B size"@,
        description: "A reasoning-focused Phi 4 family. Useful when you want a smaller model for multi-step reasoning without jumping to very large models."@,
        tags: seq!["chat"@, "reasoning"@, "thinking"@, "microsoft"@],
        variants: seq![
            VariantText { name: "phi4-reasoning:14b"@, title: "14B"@, description: "Default Phi 4 reasoning model."@, tags: seq!["recommended"@, "reasoning"@] },
            VariantText { name: "phi4-reasoning:14b-q4_K_M"@, title: "14B Q4"@, description: "Quantized reasoning variant."@, tags: seq!["q4"@, "reasoning"@] },
            VariantText { name: "phi4-reasoning:plus"@, title: "Plus"@, description: "Reasoning-plus variant."@, tags: seq!["reasoning"@, "chat"@] },
        ],
    }
}

fn phi4_reasoning() -> (f: ModelFamily)
    ensures
        family_text(f) == phi4_reasoning_text(),
{
    let mut variants: Vec<ModelVariant> = Vec::new();
    variants.push(variant("phi4-reasoning:14b", "14B", "Default Phi 4 reasoning model.", tags2("recommended", "reasoning")));
    variants.push(variant("phi4-reasoning:14b-q4_K_M", "14B Q4", "Quantized reasoning variant.", tags2("q4", "reasoning")));
    variants.push(variant("phi4-reasoning:plus", "Plus", "Reasoning-plus variant.", tags2("reasoning", "chat")));
    let f = family(
        "phi4-reasoning",
        "Phi 4 Reasoning",
        "Microsoft reasoning model in a compact 14B size",
        "A reasoning-focused Phi 4 family. Useful when you want a smaller model for multi-step reasoning without jumping to very large models.",
        tags4("chat", "reasoning", "thinking", "microsoft"),
        variants,
    );
    assert(family_text(f).variants =~= phi4_reasoning_text().variants);
    f
}

pub open spec fn phi3_text() -> FamilyText {
    FamilyText {
        id: "phi3"@,
        title: "Phi 3"@,
        subtitle: "Small Microsoft models"@,
        description: "Older but useful compact Microsoft models for low-memory local machines."@,
        tags: seq!["chat"@, "small"@, "microsoft"@],
        variants: seq![
            VariantText { name: "phi3:3.8b"@, title: "3.8B"@, description: "Small Phi 3 mini model."@, tags: seq!["small"@, "chat"@] },
            VariantText { name: "phi3:14b"@, title: "14B"@, description: "Medium Phi 3 model."@, tags: seq!["medium"@, "chat"@] },
        ],
    }
}

fn phi3() -> (f: ModelFamily)
    ensures
        family_text(f) == phi3_text(),
{
    let mut variants: Vec<ModelVariant> = Vec::new();
    variants.push(variant("phi3:3.8b", "3.8B", "Small Phi 3 mini model.", tags2("small", "chat")));
    variants.push(variant("phi3:14b", "14B", "Medium Phi 3 model.", tags2("medium", "chat")));
    let f = family(
        "phi3",
        "Phi 3",
        "Small Microsoft models",
        "Older but useful compact Microsoft models for low-memory local machines.",
        tags3("chat", "small", "microsoft"),
        variants,
    );
    assert(family_text(f).variants =~= phi3_text().variants);
    f
}

pub open spec fn qwen2_5_coder_text() -> FamilyText {
    FamilyText {
        id: "qwen2.5-coder"@,
        title: "Qwen 2.5 Coder"@,
        subtitle: "Coding-specialized Qwen models"@,
        description: "Popular code-focused models for completion, explanation and software tasks. The 7B tag is a good local start."@,
        tags: seq!["coding"@, "chat"@, "multilingual"@],
        variants: seq![
            VariantText { name: "qwen2.5-coder:1.5b"@, title: "1.5B"@, description: "Small code model."@, tags: seq!["small"@, "coding"@] },
            VariantText { name: "qwen2.5-coder:7b"@, title: "7B"@, description: "Recommended local coding model."@, tags: seq!["recommended"@, "coding"@] },
            VariantText { name: "qwen2.5-coder:14b"@, title: "14B"@, description: "Stronger coding model."@, tags: seq!["medium"@, "coding"@] },
            VariantText { name: "qwen2.5-coder:32b"@, title: "32B"@, description: "Large coding model."@, tags: seq!["large"@, "coding"@] },
        ],
    }
}

fn qwen2_5_coder() -> (f: ModelFamily)
    ensures
        family_text(f) == qwen2_5_coder_text(),
{
    let mut variants: Vec<ModelVariant> = Vec::new();
    variants.push(variant("qwen2.5-coder:1.5b", "1.5B", "Small code model.", tags2("small", "coding")));
    variants.push(variant("qwen2.5-coder:7b", "7B", "Recommended local coding model.", tags2("recommended", "coding")));
    variants.push(variant("qwen2.5-coder:14b", "14B", "Stronger coding model.", tags2("medium", "coding")));
    variants.push(variant("qwen2.5-coder:32b", "32B", "Large coding model.", tags2("large", "coding")));
    let f = family(
        "qwen2.5-coder",
        "Qwen 2.5 Coder",
        "Coding-specialized Qwen models",
        "Popular code-focused models for completion, explanation and software tasks. The 7B tag is a good local start.",
        tags3("coding", "chat", "multilingual"),
        variants,
    );
    assert(family_text(f).variants =~= qwen2_5_coder_text().variants);
    f
}

pub open spec fn qwen3_coder_text() -> FamilyText {
    FamilyText {
        id: "qwen3-coder"@,
        title: "Qwen 3 Coder"@,
        subtitle: "Popular Qwen coding models for agentic tasks"@,
        description: "Qwen's newer coding family appears high in Ollama's popular list. The 30B A3B tag is the practical local starting point."@,
        tags: seq!["coding"@, "tools"@, "popular"@],
        variants: seq![
            VariantText { name: "qwen3-coder:30b"@, title: "30B A3B"@, description: "Default local Qwen 3 Coder tag."@, tags: seq!["recommended"@, "coding"@, "moe"@] },
            VariantText { name: "qwen3-coder:30b-a3b-q4_K_M"@, title: "30B A3B Q4"@, description: "Quantized local coding variant."@, tags: seq!["q4"@, "coding"@, "moe"@] },
            VariantText { name: "qwen3-coder:480b"@, title: "480B A35B"@, description: "Very large Qwen coding model."@, tags: seq!["very large"@, "coding"@, "moe"@] },
        ],
    }
}

fn qwen3_coder() -> (f: ModelFamily)
    ensures
        family_text(f) == qwen3_coder_text(),
{
    let mut variants: Vec<ModelVariant> = Vec::new();
    variants.push(variant("qwen3-coder:30b", "30B A3B", "Default local Qwen 3 Coder tag.", tags3("recommended", "coding", "moe")));
    variants.push(variant("qwen3-coder:30b-a3b-q4_K_M", "30B A3B Q4", "Quantized local coding variant.", tags3("q4", "coding", "moe")));
    variants.push(variant("qwen3-coder:480b", "480B A35B", "Very large Qwen coding model.", tags3("very large", "coding", "moe")));
    let f = family(
        "qwen3-coder",
        "Qwen 3 Coder",
        "Popular Qwen coding models for agentic tasks",
        "Qwen's newer coding family appears high in Ollama's popular list. The 30B A3B tag is the practical local starting point.",
        tags3("coding", "tools", "popular"),
        variants,
    );
    assert(family_text(f).variants =~= qwen3_coder_text().variants);
    f
}

pub open spec fn qwen3_coder_next_text() -> FamilyText {
    FamilyText {
        id: "qwen3-coder-next"@,
        title: "Qwen 3 Coder Next"@,
        subtitle: "Recent coding-focused Qwen model"@,
        description: "A newer Qwen coding model from Ollama's recent list. Include it for users who want the freshest coding tag."@,
        tags: seq!["coding"@, "tools"@, "new"@],
        variants: seq![
            VariantText { name: "qwen3-coder-next:q4_K_M"@, title: "Q4"@, description: "Quantized local coding tag."@, tags: seq!["recommended"@, "q4"@, "coding"@] },
            VariantText { name: "qwen3-coder-next:q8_0"@, title: "Q8"@, description: "Higher precision local coding tag."@, tags: seq!["q8"@, "coding"@] },
        ],
    }
}

fn qwen3_coder_next() -> (f: ModelFamily)
    ensures
        family_text(f) == qwen3_coder_next_text(),
{
    let mut variants: Vec<ModelVariant> = Vec::new();
    variants.push(variant("qwen3-coder-next:q4_K_M", "Q4", "Quantized local coding tag.", tags3("recommended", "q4", "coding")));
    variants.push(variant("qwen3-coder-next:q8_0", "Q8", "Higher precision local coding tag.", tags2("q8", "coding")));
    let f = family(
        "qwen3-coder-next",
        "Qwen 3 Coder Next",
        "Recent coding-focused Qwen model",
        "A newer Qwen coding model from Ollama's recent list. Include it for users who want the freshest coding tag.",
        tags3("coding", "tools", "new"),
        variants,
    );
    assert(family_text(f).variants =~= qwen3_coder_next_text().variants);
    f
}

pub open spec fn deepseek_coder_text() -> FamilyText {
    FamilyText {
        id: "deepseek-coder"@,
        title: "DeepSeek Coder"@,
        subtitle: "Popular coding model family"@,
        description: "A high-pull coding model family on Ollama. Useful for users who want a lightweight code-specific model."@,
        tags: seq!["coding"@, "popular"@],
        variants: seq![
            VariantText { name: "deepseek-coder:1.3b"@, title: "1.3B"@, description: "Small code model."@, tags: seq!["small"@, "coding"@] },
            VariantText { name: "deepseek-coder:6.7b"@, title: "6.7B"@, description: "Balanced local code model."@, tags: seq!["recommended"@, "coding"@] },
            VariantText { name: "deepseek-coder:33b"@, title: "33B"@, description: "Large code model."@, tags: seq!["large"@, "coding"@] },
        ],
    }
}

fn deepseek_coder() -> (f: ModelFamily)
    ensures
        family_text(f) == deepseek_coder_text(),
{
    let mut variants: Vec<ModelVariant> = Vec::new();
    variants.push(variant("deepseek-coder:1.3b", "1.3B", "Small code model.", tags2("small", "coding")));
    variants.push(variant("deepseek-coder:6.7b", "6.7B", "Balanced local code model.", tags2("recommended", "coding")));
    variants.push(variant("deepseek-coder:33b", "33B", "Large code model.", tags2("large", "coding")));
    let f = family(
        "deepseek-coder",
        "DeepSeek Coder",
        "Popular coding model family",
        "A high-pull coding model family on Ollama. Useful for users who want a lightweight code-specific model.",
        tags2("coding", "popular"),
        variants,
    );
    assert(family_text(f).variants =~= deepseek_coder_text().variants);
    f
}

pub open spec fn starcoder2_text() -> FamilyText {
    FamilyText {
        id: "starcoder2"@,
        title: "StarCoder2"@,
        subtitle: "Popular open code model family"@,
        description: "A code-focused family with small, medium and larger tags. Good to expose alongside Qwen and DeepSeek coder models."@,
        tags: seq!["coding"@, "popular"@],
        variants: seq![
            VariantText { name: "starcoder2:3b"@, title: "3B"@, description: "Small code model."@, tags: seq!["small"@, "coding"@] },
            VariantText { name: "starcoder2:7b"@, title: "7B"@, description: "Balanced code model."@, tags: seq!["recommended"@, "coding"@] },
            VariantText { name: "starcoder2:15b"@, title: "15B"@, description: "Larger code model."@, tags: seq!["medium"@, "coding"@] },
        ],
    }
}

fn starcoder2() -> (f: ModelFamily)
    ensures
        family_text(f) == starcoder2_text(),
{
    let mut variants: Vec<ModelVariant> = Vec::new();
    variants.push(variant("starcoder2:3b", "3B", "Small code model.", tags2("small", "coding")));
    variants.push(variant("starcoder2:7b", "7B", "Balanced code model.", tags2("recommended", "coding")));
    variants.push(variant("starcoder2:15b", "15B", "Larger code model.", tags2("medium", "coding")));
    let f = family(
        "starcoder2",
        "StarCoder2",
        "Popular open code model family",
        "A code-focused family with small, medium and larger tags. Good to expose alongside Qwen and DeepSeek coder models.",
        tags2("coding", "popular"),
        variants,
    );
    assert(family_text(f).variants =~= starcoder2_text().variants);
    f
}

pub open spec fn codegemma_text() -> FamilyText {
    FamilyText {
        id: "codegemma"@,
        title: "CodeGemma"@,
        subtitle: "Google code models in compact sizes"@,
        description: "A popular coding family with 2B and 7B variants for code completion and instruction-style coding tasks."@,
        tags: seq!["coding"@, "google"@, "popular"@],
        variants: seq![
            VariantText { name: "codegemma:2b"@, title: "2B"@, description: "Small code completion model."@, tags: seq!["small"@, "coding"@] },
            VariantText { name: "codegemma:7b"@, title: "7B"@, description: "Recommended CodeGemma local tag."@, tags: seq!["recommended"@, "coding"@] },
        ],
    }
}

fn codegemma() -> (f: ModelFamily)
    ensures
        family_text(f) == codegemma_text(),
{
    let mut variants: Vec<ModelVariant> = Vec::new();
    variants.push(variant("codegemma:2b", "2B", "Small code completion model.", tags2("small", "coding")));
    variants.push(variant("codegemma:7b", "7B", "Recommended CodeGemma local tag.", tags2("recommended", "coding")));
    let f = family(
        "codegemma",
        "CodeGemma",
        "Google code models in compact sizes",
        "A popular coding family with 2B and 7B variants for code completion and instruction-style coding tasks.",
        tags3("coding", "google", "popular"),
        variants,
    );
    assert(family_text(f).variants =~= codegemma_text().variants);
    f
}

pub open spec fn codellama_text() -> FamilyText {
    FamilyText {
        id: "codellama"@,
        title: "Code Llama"@,
        subtitle: "Code-focused Llama family"@,
        description: "Established coding models for code generation and explanation. Useful as a fallback coding family."@,
        tags: seq!["coding"@, "chat"@, "meta"@],
        variants: seq![
            VariantText { name: "codellama:7b"@, title: "7B"@, description: "Small coding model."@, tags: seq!["small"@, "coding"@] },
            VariantText { name: "codellama:13b"@, title: "13B"@, description: "Medium coding model."@, tags: seq!["medium"@, "coding"@] },
            VariantText { name: "codellama:34b"@, title: "34B"@, description: "Large coding model."@, tags: seq!["large"@, "coding"@] },
        ],
    }
}

fn codellama() -> (f: ModelFamily)
    ensures
        family_text(f) == codellama_text(),
{
    let mut variants: Vec<ModelVariant> = Vec::new();
    variants.push(variant("codellama:7b", "7B", "Small coding model.", tags2("small", "coding")));
    variants.push(variant("codellama:13b", "13B", "Medium coding model.", tags2("medium", "coding")));
    variants.push(variant("codellama:34b", "34B", "Large coding model.", tags2("large", "coding")));
    let f = family(
        "codellama",
        "Code Llama",
        "Code-focused Llama family",
        "Established coding models for code generation and explanation. Useful as a fallback coding family.",
        tags3("coding", "chat", "meta"),
        variants,
    );
    assert(family_text(f).variants =~= codellama_text().variants);
    f
}

pub open spec fn llama3_2_vision_text() -> FamilyText {
    FamilyText {
        id: "llama3.2-vision"@,
        title: "Llama 3.2 Vision"@,
        subtitle: "Vision-capable Llama models"@,
        description: "Multimodal Llama variants. Moose can download them through Ollama; text chat support depends on how you use the provider."@,
        tags: seq!["vision"@, "chat"@, "meta"@],
        variants: seq![
            VariantText { name: "llama3.2-vision:11b"@, title: "11B"@, description: "Smaller vision-capable Llama model."@, tags: seq!["vision"@, "medium"@] },
            VariantText { name: "llama3.2-vision:90b"@, title: "90B"@, description: "Large vision-capable Llama model."@, tags: seq!["vision"@, "large"@] },
        ],
    }
}

fn llama3_2_vision() -> (f: ModelFamily)
    ensures
        family_text(f) == llama3_2_vision_text(),
{
    let mut variants: Vec<ModelVariant> = Vec::new();
    variants.push(variant("llama3.2-vision:11b", "11B", "Smaller vision-capable Llama model.", tags2("vision", "medium")));
    variants.push(variant("llama3.2-vision:90b", "90B", "Large vision-capable Llama model.", tags2("vision", "large")));
    let f = family(
        "llama3.2-vision",
        "Llama 3.2 Vision",
        "Vision-capable Llama models",
        "Multimodal Llama variants. Moose can download them through Ollama; text chat support depends on how you use the provider.",
        tags3("vision", "chat", "meta"),
        variants,
    );
    assert(family_text(f).variants =~= llama3_2_vision_text().variants);
    f
}

pub open spec fn qwen3_vl_text() -> FamilyText {
    FamilyText {
        id: "qwen3-vl"@,
        title: "Qwen 3 VL"@,
        subtitle: "Vision-language Qwen models"@,
        description: "Vision-language Qwen variants with instruct and thinking tags. Useful for multimodal workflows once the UI supports image input."@,
        tags: seq!["vision"@, "multilingual"@, "thinking"@],
        variants: seq![
            VariantText { name: "qwen3-vl:2b"@, title: "2B"@, description: "Small vision-language variant."@, tags: seq!["small"@, "vision"@] },
            VariantText { name: "qwen3-vl:4b"@, title: "4B"@, description: "Compact vision-language model."@, tags: seq!["small"@, "vision"@] },
            VariantText { name: "qwen3-vl:8b"@, title: "8B"@, description: "Balanced vision-language model."@, tags: seq!["vision"@, "thinking"@] },
            VariantText { name: "qwen3-vl:30b-a3b"@, title: "30B A3B"@, description: "Larger mixture-of-experts vision model."@, tags: seq!["vision"@, "moe"@] },
        ],
    }
}

fn qwen3_vl() -> (f: ModelFamily)
    ensures
        family_text(f) == qwen3_vl_text(),
{
    let mut variants: Vec<ModelVariant> = Vec::new();
    variants.push(variant("qwen3-vl:2b", "2B", "Small vision-language variant.", tags2("small", "vision")));
    variants.push(variant("qwen3-vl:4b", "4B", "Compact vision-language model.", tags2("small", "vision")));
    variants.push(variant("qwen3-vl:8b", "8B", "Balanced vision-language model.", tags2("vision", "thinking")));
    variants.push(variant("qwen3-vl:30b-a3b", "30B A3B", "Larger mixture-of-experts vision model.", tags2("vision", "moe")));
    let f = family(
        "qwen3-vl",
        "Qwen 3 VL",
        "Vision-language Qwen models",
        "Vision-language Qwen variants with instruct and thinking tags. Useful for multimodal workflows once the UI supports image input.",
        tags3("vision", "multilingual", "thinking"),
        variants,
    );
    assert(family_text(f).variants =~= qwen3_vl_text().variants);
    f
}

pub open spec fn qwen2_5vl_text() -> FamilyText {
    FamilyText {
        id: "qwen2.5vl"@,
        title: "Qwen 2.5 VL"@,
        subtitle: "Popular Qwen vision-language model family"@,
        description: "Qwen's earlier flagship vision-language family remains popular on Ollama and includes practical 3B and 7B local sizes."@,
        tags: seq!["vision"@, "multilingual"@, "popular"@],
        variants: seq![
            VariantText { name: "qwen2.5vl:3b"@, title: "3B"@, description: "Small vision-language model."@, tags: seq!["small"@, "vision"@] },
            VariantText { name: "qwen2.5vl:7b"@, title: "7B"@, description: "Recommended local vision-language model."@, tags: seq!["recommended"@, "vision"@] },
            VariantText { name: "qwen2.5vl:32b"@, title: "32B"@, description: "Large vision-language model."@, tags: seq!["large"@, "vision"@] },
        ],
    }
}

fn qwen2_5vl() -> (f: ModelFamily)
    ensures
        family_text(f) == qwen2_5vl_text(),
{
    let mut variants: Vec<ModelVariant> = Vec::new();
    variants.push(variant("qwen2.5vl:3b", "3B", "Small vision-language model.", tags2("small", "vision")));
    variants.push(variant("qwen2.5vl:7b", "7B", "Recommended local vision-language model.", tags2("recommended", "vision")));
    variants.push(variant("qwen2.5vl:32b", "32B", "Large vision-language model.", tags2("large", "vision")));
    let f = family(
        "qwen2.5vl",
        "Qwen 2.5 VL",
        "Popular Qwen vision-language model family",
        "Qwen's earlier flagship vision-language family remains popular on Ollama and includes practical 3B and 7B local sizes.",
        tags3("vision", "multilingual", "popular"),
        variants,
    );
    assert(family_text(f).variants =~= qwen2_5vl_text().variants);
    f
}

pub open spec fn llava_text() -> FamilyText {
    FamilyText {
        id: "llava"@,
        title: "LLaVA"@,
        subtitle: "Classic high-pull vision-language model"@,
        description: "One of the most pulled multimodal model families in Ollama. Useful for users who want broad compatibility with older vision workflows."@,
        tags: seq!["vision"@, "popular"@],
        variants: seq![
            VariantText { name: "llava:7b"@, title: "7B"@, description: "Small LLaVA vision model."@, tags: seq!["recommended"@, "vision"@] },
            VariantText { name: "llava:13b"@, title: "13B"@, description: "Medium LLaVA vision model."@, tags: seq!["medium"@, "vision"@] },
            VariantText { name: "llava:34b"@, title: "34B"@, description: "Large LLaVA vision model."@, tags: seq!["large"@, "vision"@] },
        ],
    }
}

fn llava() -> (f: ModelFamily)
    ensures
        family_text(f) == llava_text(),
{
    let mut variants: Vec<ModelVariant> = Vec::new();
    variants.push(variant("llava:7b", "7B", "Small LLaVA vision model.", tags2("recommended", "vision")));
    variants.push(variant("llava:13b", "13B", "Medium LLaVA vision model.", tags2("medium", "vision")));
    variants.push(variant("llava:34b", "34B", "Large LLaVA vision model.", tags2("large", "vision")));
    let f = family(
        "llava",
        "LLaVA",
        "Classic high-pull vision-language model",
        "One of the most pulled multimodal model families in Ollama. Useful for users who want broad compatibility with older vision workflows.",
        tags2("vision", "popular"),
        variants,
    );
    assert(family_text(f).variants =~= llava_text().variants);
    f
}

pub open spec fn minicpm_v_text() -> FamilyText {
    FamilyText {
        id: "minicpm-v"@,
        title: "MiniCPM-V"@,
        subtitle: "Popular compact multimodal model"@,
        description: "A popular vision-language model designed for multimodal understanding in a comparatively compact size."@,
        tags: seq!["vision"@, "small"@, "popular"@],
        variants: seq![
            VariantText { name: "minicpm-v:8b"@, title: "8B"@, description: "Default MiniCPM-V local tag."@, tags: seq!["recommended"@, "vision"@] },
        ],
    }
}

fn minicpm_v() -> (f: ModelFamily)
    ensures
        family_text(f) == minicpm_v_text(),
{
    let mut variants: Vec<ModelVariant> = Vec::new();
    variants.push(variant("minicpm-v:8b", "8B", "Default MiniCPM-V local tag.", tags2("recommended", "vision")));
    let f = family(
        "minicpm-v",
        "MiniCPM-V",
        "Popular compact multimodal model",
        "A popular vision-language model designed for multimodal understanding in a comparatively compact size.",
        tags3("vision", "small", "popular"),
        variants,
    );
    assert(family_text(f).variants =~= minicpm_v_text().variants);
    f
}

pub open spec fn olmo2_text() -> FamilyText {
    FamilyText {
        id: "olmo2"@,
        title: "OLMo 2"@,
        subtitle: "Fully open 7B and 13B models"@,
        description: "Popular fully open models from Ai2. Good to include for users who prefer open training data and transparent model families."@,
        tags: seq!["chat"@, "open"@, "popular"@],
        variants: seq![
            VariantText { name: "olmo2:7b"@, title: "7B"@, description: "Small OLMo 2 model."@, tags: seq!["small"@, "open"@] },
            VariantText { name: "olmo2:13b"@, title: "13B"@, description: "Recommended OLMo 2 model."@, tags: seq!["recommended"@, "open"@] },
            VariantText { name: "olmo2:13b-1124-instruct-q4_K_M"@, title: "13B Q4"@, description: "Quantized instruction tag."@, tags: seq!["q4"@, "chat"@] },
        ],
    }
}

fn olmo2() -> (f: ModelFamily)
    ensures
        family_text(f) == olmo2_text(),
{
    let mut variants: Vec<ModelVariant> = Vec::new();
    variants.push(variant("olmo2:7b", "7B", "Small OLMo 2 model.", tags2("small", "open")));
    variants.push(variant("olmo2:13b", "13B", "Recommended OLMo 2 model.", tags2("recommended", "open")));
    variants.push(variant("olmo2:13b-1124-instruct-q4_K_M", "13B Q4", "Quantized instruction tag.", tags2("q4", "chat")));
    let f = family(
        "olmo2",
        "OLMo 2",
        "Fully open 7B and 13B models",
        "Popular fully open models from Ai2. Good to include for users who prefer open training data and transparent model families.",
        tags3("chat", "open", "popular"),
        variants,
    );
    assert(family_text(f).variants =~= olmo2_text().variants);
    f
}

pub open spec fn mixtral_text() -> FamilyText {
    FamilyText {
        id: "mixtral"@,
        title: "Mixtral"@,
        subtitle: "Popular Mistral mixture-of-experts models"@,
        description: "Older but still widely used MoE models from Mistral. Useful for larger local and remote Ollama systems."@,
        tags: seq!["chat"@, "tools"@, "moe"@, "popular"@],
        variants: seq![
            VariantText { name: "mixtral:8x7b"@, title: "8x7B"@, description: "Classic Mixtral MoE model."@, tags: seq!["moe"@, "chat"@] },
            VariantText { name: "mixtral:8x22b"@, title: "8x22B"@, description: "Large Mixtral MoE model."@, tags: seq!["large"@, "moe"@] },
        ],
    }
}

fn mixtral() -> (f: ModelFamily)
    ensures
        family_text(f) == mixtral_text(),
{
    let mut variants: Vec<ModelVariant> = Vec::new();
    variants.push(variant("mixtral:8x7b", "8x7B", "Classic Mixtral MoE model.", tags2("moe", "chat")));
    variants.push(variant("mixtral:8x22b", "8x22B", "Large Mixtral MoE model.", tags2("large", "moe")));
    let f = family(
        "mixtral",
        "Mixtral",
        "Popular Mistral mixture-of-experts models",
        "Older but still widely used MoE models from Mistral. Useful for larger local and remote Ollama systems.",
        tags4("chat", "tools", "moe", "popular"),
        variants,
    );
    assert(family_text(f).variants =~= mixtral_text().variants);
    f
}

pub open spec fn qwq_text() -> FamilyText {
    FamilyText {
        id: "qwq"@,
        title: "QwQ"@,
        subtitle: "Qwen reasoning model"@,
        description: "A popular Qwen reasoning model. Useful as a dedicated thinking model alongside DeepSeek R1 and Qwen 3."@,
        tags: seq!["chat"@, "reasoning"@, "thinking"@, "popular"@],
        variants: seq![
            VariantText { name: "qwq:32b"@, title: "32B"@, description: "Default QwQ reasoning model."@, tags: seq!["recommended"@, "reasoning"@] },
            VariantText { name: "qwq:32b-q4_K_M"@, title: "32B Q4"@, description: "Quantized QwQ reasoning tag."@, tags: seq!["q4"@, "thinking"@] },
        ],
    }
}

fn qwq() -> (f: ModelFamily)
    ensures
        family_text(f) == qwq_text(),
{
    let mut variants: Vec<ModelVariant> = Vec::new();
    variants.push(variant("qwq:32b", "32B", "Default QwQ reasoning model.", tags2("recommended", "reasoning")));
    variants.push(variant("qwq:32b-q4_K_M", "32B Q4", "Quantized QwQ reasoning tag.", tags2("q4", "thinking")));
    let f = family(
        "qwq",
        "QwQ",
        "Qwen reasoning model",
        "A popular Qwen reasoning model. Useful as a dedicated thinking model alongside DeepSeek R1 and Qwen 3.",
        tags4("chat", "reasoning", "thinking", "popular"),
        variants,
    );
    assert(family_text(f).variants =~= qwq_text().variants);
    f
}

pub open spec fn deepseek_v3_text() -> FamilyText {
    FamilyText {
        id: "deepseek-v3"@,
        title: "DeepSeek V3"@,
        subtitle: "Very large MoE model for remote providers"@,
        description: "A high-pull DeepSeek MoE model. It is too large for most local machines, but useful when Moose points to a powerful remote Ollama provider."@,
        tags: seq!["chat"@, "moe"@, "very large"@, "popular"@],
        variants: seq![
            VariantText { name: "deepseek-v3:671b"@, title: "671B"@, description: "Default very large DeepSeek V3 tag."@, tags: seq!["very large"@, "moe"@] },
            VariantText { name: "deepseek-v3:671b-q4_K_M"@, title: "671B Q4"@, description: "Quantized very large DeepSeek V3 tag."@, tags: seq!["q4"@, "very large"@] },
        ],
    }
}

fn deepseek_v3() -> (f: ModelFamily)
    ensures
        family_text(f) == deepseek_v3_text(),
{
    let mut variants: Vec<ModelVariant> = Vec::new();
    variants.push(variant("deepseek-v3:671b", "671B", "Default very large DeepSeek V3 tag.", tags2("very large", "moe")));
    variants.push(variant("deepseek-v3:671b-q4_K_M", "671B Q4", "Quantized very large DeepSeek V3 tag.", tags2("q4", "very large")));
    let f = family(
        "deepseek-v3",
        "DeepSeek V3",
        "Very large MoE model for remote providers",
        "A high-pull DeepSeek MoE model. It is too large for most local machines, but useful when Moose points to a powerful remote Ollama provider.",
        tags4("chat", "moe", "very large", "popular"),
        variants,
    );
    assert(family_text(f).variants =~= deepseek_v3_text().variants);
    f
}

pub open spec fn laguna_xs_2_text() -> FamilyText {
    FamilyText {
        id: "laguna-xs.2"@,
        title: "Laguna XS.2"@,
        subtitle: "Recent local MoE model for coding and long-horizon work"@,
        description: "A recent model in Ollama's newest list, designed for agentic coding with a compact active parameter count."@,
        tags: seq!["coding"@, "thinking"@, "new"@, "moe"@],
        variants: seq![
            VariantText { name: "laguna-xs.2:q4_K_M"@, title: "Q4"@, description: "Quantized Laguna XS.2 tag."@, tags: seq!["recommended"@, "q4"@, "coding"@] },
            VariantText { name: "laguna-xs.2:q8_0"@, title: "Q8"@, description: "Higher precision Laguna XS.2 tag."@, tags: seq!["q8"@, "coding"@] },
        ],
    }
}

fn laguna_xs_2() -> (f: ModelFamily)
    ensures
        family_text(f) == laguna_xs_2_text(),
{
    let mut variants: Vec<ModelVariant> = Vec::new();
    variants.push(variant("laguna-xs.2:q4_K_M", "Q4", "Quantized Laguna XS.2 tag.", tags3("recommended", "q4", "coding")));
    variants.push(variant("laguna-xs.2:q8_0", "Q8", "Higher precision Laguna XS.2 tag.", tags2("q8", "coding")));
    let f = family(
        "laguna-xs.2",
        "Laguna XS.2",
        "Recent local MoE model for coding and long-horizon work",
        "A recent model in Ollama's newest list, designed for agentic coding with a compact active parameter count.",
        tags4("coding", "thinking", "new", "moe"),
        variants,
    );
    assert(family_text(f).variants =~= laguna_xs_2_text().variants);
    f
}

pub open spec fn lfm2_text() -> FamilyText {
    FamilyText {
        id: "lfm2"@,
        title: "LFM2"@,
        subtitle: "Recent hybrid model for on-device deployment"@,
        description: "A newer hybrid model family shown in Ollama's recent list. The 24B A2B tag offers an efficient active-parameter path."@,
        tags: seq!["chat"@, "tools"@, "new"@, "moe"@],
        variants: seq![
            VariantText { name: "lfm2:24b-a2b"@, title: "24B A2B"@, description: "Default efficient LFM2 tag."@, tags: seq!["recommended"@, "moe"@] },
            VariantText { name: "lfm2:24b-q4_K_M"@, title: "24B Q4"@, description: "Quantized LFM2 variant."@, tags: seq!["q4"@, "chat"@] },
        ],
    }
}

fn lfm2() -> (f: ModelFamily)
    ensures
        family_text(f) == lfm2_text(),
{
    let mut variants: Vec<ModelVariant> = Vec::new();
    variants.push(variant("lfm2:24b-a2b", "24B A2B", "Default efficient LFM2 tag.", tags2("recommended", "moe")));
    variants.push(variant("lfm2:24b-q4_K_M", "24B Q4", "Quantized LFM2 variant.", tags2("q4", "chat")));
    let f = family(
        "lfm2",
        "LFM2",
        "Recent hybrid model for on-device deployment",
        "A newer hybrid model family shown in Ollama's recent list. The 24B A2B tag offers an efficient active-parameter path.",
        tags4("chat", "tools", "new", "moe"),
        variants,
    );
    assert(family_text(f).variants =~= lfm2_text().variants);
    f
}

pub open spec fn nemotron_3_super_text() -> FamilyText {
    FamilyText {
        id: "nemotron-3-super"@,
        title: "Nemotron 3 Super"@,
        subtitle: "Recent NVIDIA 120B MoE model"@,
        description: "A recent NVIDIA MoE model. Exposed for remote Ollama providers and high-memory systems."@,
        tags: seq!["chat"@, "thinking"@, "tools"@, "new"@, "very large"@],
        variants: seq![
            VariantText { name: "nemotron-3-super:120b-a12b"@, title: "120B A12B"@, description: "Default Nemotron 3 Super MoE tag."@, tags: seq!["moe"@, "very large"@] },
            VariantText { name: "nemotron-3-super:120b-a12b-q4_K_M"@, title: "120B Q4"@, description: "Quantized Nemotron 3 Super tag."@, tags: seq!["q4"@, "very large"@] },
        ],
    }
}

fn nemotron_3_super() -> (f: ModelFamily)
    ensures
        family_text(f) == nemotron_3_super_text(),
{
    let mut variants: Vec<ModelVariant> = Vec::new();
    variants.push(variant("nemotron-3-super:120b-a12b", "120B A12B", "Default Nemotron 3 Super MoE tag.", tags2("moe", "very large")));
    variants.push(variant("nemotron-3-super:120b-a12b-q4_K_M", "120B Q4", "Quantized Nemotron 3 Super tag.", tags2("q4", "very large")));
    let f = family(
        "nemotron-3-super",
        "Nemotron 3 Super",
        "Recent NVIDIA 120B MoE model",
        "A recent NVIDIA MoE model. Exposed for remote Ollama providers and high-memory systems.",
        tags5("chat", "thinking", "tools", "new", "very large"),
        variants,
    );
    assert(family_text(f).variants =~= nemotron_3_super_text().variants);
    f
}

pub open spec fn smollm2_text() -> FamilyText {
    FamilyText {
        id: "smollm2"@,
        title: "SmolLM2"@,
        subtitle: "Very small instruction models"@,
        description: "Tiny instruction models for low-resource machines and quick tests."@,
        tags: seq!["chat"@, "small"@, "fast"@],
        variants: seq![
            VariantText { name: "smollm2:135m"@, title: "135M"@, description: "Tiny test model."@, tags: seq!["tiny"@, "fast"@] },
            VariantText { name: "smollm2:360m"@, title: "360M"@, description: "Very small local model."@, tags: seq!["tiny"@, "fast"@] },
            VariantText { name: "smollm2:1.7b"@, title: "1.7B"@, description: "Small instruction model."@, tags: seq!["small"@, "chat"@] },
        ],
    }
}

fn smollm2() -> (f: ModelFamily)
    ensures
        family_text(f) == smollm2_text(),
{
    let mut variants: Vec<ModelVariant> = Vec::new();
    variants.push(variant("smollm2:135m", "135M", "Tiny test model.", tags2("tiny", "fast")));
    variants.push(variant("smollm2:360m", "360M", "Very small local model.", tags2("tiny", "fast")));
    variants.push(variant("smollm2:1.7b", "1.7B", "Small instruction model.", tags2("small", "chat")));
    let f = family(
        "smollm2",
        "SmolLM2",
        "Very small instruction models",
        "Tiny instruction models for low-resource machines and quick tests.",
        tags3("chat", "small", "fast"),
        variants,
    );
    assert(family_text(f).variants =~= smollm2_text().variants);
    f
}

pub open spec fn catalog_part_0() -> Seq<FamilyText> {
    seq![llama3_1_text(), llama3_2_text(), llama3_3_text(), llama3_text(), deepseek_r1_text()]
}

fn part_0() -> (r: Vec<ModelFamily>)
    ensures
        catalog_text(r@) == catalog_part_0(),
{
    let mut r: Vec<ModelFamily> = Vec::new();
    r.push(llama3_1());
    r.push(llama3_2());
    r.push(llama3_3());
    r.push(llama3());
    r.push(deepseek_r1());
    assert(catalog_text(r@) =~= catalog_part_0());
    r
}

pub open spec fn catalog_part_1() -> Seq<FamilyText> {
    seq![gemma3_text(), gemma3n_text(), gemma2_text(), gemma4_text(), translategemma_text()]
}

fn part_1() -> (r: Vec<ModelFamily>)
    ensures
        catalog_text(r@) == catalog_part_1(),
{
    let mut r: Vec<ModelFamily> = Vec::new();
    r.push(gemma3());
    r.push(gemma3n());
    r.push(gemma2());
    r.push(gemma4());
    r.push(translategemma());
    assert(catalog_text(r@) =~= catalog_part_1());
    r
}

pub open spec fn catalog_part_2() -> Seq<FamilyText> {
    seq![medgemma_text(), qwen2_5_text(), qwen3_text(), qwen3_5_text(), qwen3_6_text()]
}

fn part_2() -> (r: Vec<ModelFamily>)
    ensures
        catalog_text(r@) == catalog_part_2(),
{
    let mut r: Vec<ModelFamily> = Vec::new();
    r.push(medgemma());
    r.push(qwen2_5());
    r.push(qwen3());
    r.push(qwen3_5());
    r.push(qwen3_6());
    assert(catalog_text(r@) =~= catalog_part_2());
    r
}

pub open spec fn catalog_part_3() -> Seq<FamilyText> {
    seq![gpt_oss_text(), mistral_text(), mistral_nemo_text(), mistral_small_text(), mistral_small3_2_text()]
}

fn part_3() -> (r: Vec<ModelFamily>)
    ensures
        catalog_text(r@) == catalog_part_3(),
{
    let mut r: Vec<ModelFamily> = Vec::new();
    r.push(gpt_oss());
    r.push(mistral());
    r.push(mistral_nemo());
    r.push(mistral_small());
    r.push(mistral_small3_2());
    assert(catalog_text(r@) =~= catalog_part_3());
    r
}

pub open spec fn catalog_part_4() -> Seq<FamilyText> {
    seq![mistral_medium_3_5_text(), ministral_3_text(), phi4_text(), phi4_reasoning_text(), phi3_text()]
}

fn part_4() -> (r: Vec<ModelFamily>)
    ensures
        catalog_text(r@) == catalog_part_4(),
{
    let mut r: Vec<ModelFamily> = Vec::new();
    r.push(mistral_medium_3_5());
    r.push(ministral_3());
    r.push(phi4());
    r.push(phi4_reasoning());
    r.push(phi3());
    assert(catalog_text(r@) =~= catalog_part_4());
    r
}

pub open spec fn catalog_part_5() -> Seq<FamilyText> {
    seq![qwen2_5_coder_text(), qwen3_coder_text(), qwen3_coder_next_text(), deepseek_coder_text(), starcoder2_text()]
}

fn part_5() -> (r: Vec<ModelFamily>)
    ensures
        catalog_text(r@) == catalog_part_5(),
{
    let mut r: Vec<ModelFamily> = Vec::new();
    r.push(qwen2_5_coder());
    r.push(qwen3_coder());
    r.push(qwen3_coder_next());
    r.push(deepseek_coder());
    r.push(starcoder2());
    assert(catalog_text(r@) =~= catalog_part_5());
    r
}

pub open spec fn catalog_part_6() -> Seq<FamilyText> {
    seq![codegemma_text(), codellama_text(), llama3_2_vision_text(), qwen3_vl_text(), qwen2_5vl_text()]
}

fn part_6() -> (r: Vec<ModelFamily>)
    ensures
        catalog_text(r@) == catalog_part_6(),
{
    let mut r: Vec<ModelFamily> = Vec::new();
    r.push(codegemma());
    r.push(codellama());
    r.push(llama3_2_vision());
    r.push(qwen3_vl());
    r.push(qwen2_5vl());
    assert(catalog_text(r@) =~= catalog_part_6());
    r
}

pub open spec fn catalog_part_7() -> Seq<FamilyText> {
    seq![llava_text(), minicpm_v_text(), olmo2_text(), mixtral_text(), qwq_text()]
}

fn part_7() -> (r: Vec<ModelFamily>)
    ensures
        catalog_text(r@) == catalog_part_7(),
{
    let mut r: Vec<ModelFamily> = Vec::new();
    r.push(llava());
    r.push(minicpm_v());
    r.push(olmo2());
    r.push(mixtral());
    r.push(qwq());
    assert(catalog_text(r@) =~= catalog_part_7());
    r
}

pub open spec fn catalog_part_8() -> Seq<FamilyText> {
    seq![deepseek_v3_text(), laguna_xs_2_text(), lfm2_text(), nemotron_3_super_text(), smollm2_text()]
}

fn part_8() -> (r: Vec<ModelFamily>)
    ensures
        catalog_text(r@) == catalog_part_8(),
{
    let mut r: Vec<ModelFamily> = Vec::new();
    r.push(deepseek_v3());
    r.push(laguna_xs_2());
    r.push(lfm2());
    r.push(nemotron_3_super());
    r.push(smollm2());
    assert(catalog_text(r@) =~= catalog_part_8());
    r
}

/// The families of the catalog, in the order the model manager lists them.
pub open spec fn catalog() -> Seq<FamilyText> {
    catalog_part_0() + catalog_part_1() + catalog_part_2() + catalog_part_3() + catalog_part_4() + catalog_part_5() + catalog_part_6() + catalog_part_7() + catalog_part_8()
}

/// The catalog of models offered for download.
pub fn model_catalog() -> (r: Vec<ModelFamily>)
    ensures
        catalog_text(r@) == catalog(),
{
    let mut r: Vec<ModelFamily> = Vec::new();
    let mut p = part_0();
    let ghost before = r@;
    r.append(&mut p);
    assert(catalog_text(r@) =~= catalog_text(before) + catalog_part_0());
    let mut p = part_1();
    let ghost before = r@;
    r.append(&mut p);
    assert(catalog_text(r@) =~= catalog_text(before) + catalog_part_1());
    let mut p = part_2();
    let ghost before = r@;
    r.append(&mut p);
    assert(catalog_text(r@) =~= catalog_text(before) + catalog_part_2());
    let mut p = part_3();
    let ghost before = r@;
    r.append(&mut p);
    assert(catalog_text(r@) =~= catalog_text(before) + catalog_part_3());
    let mut p = part_4();
    let ghost before = r@;
    r.append(&mut p);
    assert(catalog_text(r@) =~= catalog_text(before) + catalog_part_4());
    let mut p = part_5();
    let ghost before = r@;
    r.append(&mut p);
    assert(catalog_text(r@) =~= catalog_text(before) + catalog_part_5());
    let mut p = part_6();
    let ghost before = r@;
    r.append(&mut p);
    assert(catalog_text(r@) =~= catalog_text(before) + catalog_part_6());
    let mut p = part_7();
    let ghost before = r@;
    r.append(&mut p);
    assert(catalog_text(r@) =~= catalog_text(before) + catalog_part_7());
    let mut p = part_8();
    let ghost before = r@;
    r.append(&mut p);
    assert(catalog_text(r@) =~= catalog_text(before) + catalog_part_8());
    r
}

} // verus!
