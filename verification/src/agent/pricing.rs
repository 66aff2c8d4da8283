//! Where the prices of a model come from.

use vstd::prelude::*;
use vstd::string::*;

use crate::json;
use crate::json::JValue;
use crate::json::Json;
use crate::text;
use crate::text::starts_with;

verus! {

/// The file in which prices can be set, as messages show it.
pub const DEFAULT_PRICING_CONFIG_DISPLAY_PATH: &'static str = "~/.gosh/agent/model_pricing.toml";

/// The prices of a model per thousand tokens, as JSON numbers.
#[derive(Debug)]
pub struct ModelPricing {
    pub input_per_1k: Json,
    pub output_per_1k: Json,
    pub reasoning_per_1k: Json,
    pub cache_read_per_1k: Json,
    pub cache_write_per_1k: Json,
}

pub ghost struct PricingV {
    pub input_per_1k: JValue,
    pub output_per_1k: JValue,
    pub reasoning_per_1k: JValue,
    pub cache_read_per_1k: JValue,
    pub cache_write_per_1k: JValue,
}

pub open spec fn pricing_view(o: Option<ModelPricing>) -> Option<PricingV> {
    match o {
        Some(p) => Some(p@),
        None => None,
    }
}

/// A number that a price can be: one without a minus sign.
pub open spec fn is_price(v: JValue) -> bool {
    match v {
        JValue::Int(n) => n >= 0,
        JValue::Float(digits) => !text::has_prefix(digits, "-"@),
        _ => false,
    }
}

/// A field of a price list: one that may be missing is then free.
pub open spec fn price_field(v: JValue, field: Seq<char>, required: bool) -> Option<JValue> {
    match json::jget(v, field) {
        Some(price) => if is_price(price) {
            Some(price)
        } else {
            None
        },
        None => if required {
            None
        } else {
            Some(JValue::Int(0))
        },
    }
}

/// The prices in a value, where it is an object with all that is required.
pub open spec fn pricing_in(v: JValue) -> Option<PricingV> {
    match (
        price_field(v, "input_per_1k"@, true),
        price_field(v, "output_per_1k"@, true),
        price_field(v, "reasoning_per_1k"@, false),
        price_field(v, "cache_read_per_1k"@, false),
        price_field(v, "cache_write_per_1k"@, false),
    ) {
        (Some(input), Some(output), Some(reasoning), Some(read), Some(write)) => Some(
            PricingV {
                input_per_1k: input,
                output_per_1k: output,
                reasoning_per_1k: reasoning,
                cache_read_per_1k: read,
                cache_write_per_1k: write,
            },
        ),
        _ => None,
    }
}

fn price_ok(v: &Json) -> (r: bool)
    ensures
        r == is_price(v@),
{
    match v {
        Json::UInt(_) => true,
        Json::Int(n) => *n >= 0,
        Json::Float(f) => !starts_with(f.digits(), "-"),
        _ => false,
    }
}

fn read_price(v: &Json, field: &str, required: bool) -> (r: Option<Json>)
    ensures
        json::opt_owned_json(r) == price_field(v@, field@, required),
{
    match v.get(field) {
        Some(price) => if price_ok(price) {
            Some(price.copy())
        } else {
            None
        },
        None => if required {
            None
        } else {
            Some(Json::UInt(0))
        },
    }
}

/// The prices in a value.
pub fn model_pricing_from_value(value: &Json) -> (r: Option<ModelPricing>)
    ensures
        pricing_view(r) == pricing_in(value@),
{
    let input = read_price(value, "input_per_1k", true);
    let output = read_price(value, "output_per_1k", true);
    let reasoning = read_price(value, "reasoning_per_1k", false);
    let read = read_price(value, "cache_read_per_1k", false);
    let write = read_price(value, "cache_write_per_1k", false);
    match (input, output, reasoning, read, write) {
        (
            Some(input_per_1k),
            Some(output_per_1k),
            Some(reasoning_per_1k),
            Some(cache_read_per_1k),
            Some(cache_write_per_1k),
        ) => Some(
            ModelPricing {
                input_per_1k,
                output_per_1k,
                reasoning_per_1k,
                cache_read_per_1k,
                cache_write_per_1k,
            },
        ),
        _ => None,
    }
}

impl ModelPricing {
    pub open spec fn view(&self) -> PricingV {
        PricingV {
            input_per_1k: self.input_per_1k@,
            output_per_1k: self.output_per_1k@,
            reasoning_per_1k: self.reasoning_per_1k@,
            cache_read_per_1k: self.cache_read_per_1k@,
            cache_write_per_1k: self.cache_write_per_1k@,
        }
    }

    pub fn copy(&self) -> (r: ModelPricing)
        ensures
            r@ == self@,
    {
        ModelPricing {
            input_per_1k: self.input_per_1k.copy(),
            output_per_1k: self.output_per_1k.copy(),
            reasoning_per_1k: self.reasoning_per_1k.copy(),
            cache_read_per_1k: self.cache_read_per_1k.copy(),
            cache_write_per_1k: self.cache_write_per_1k.copy(),
        }
    }
}

/// Which prices a task goes by.
#[derive(Debug, Clone, Copy, PartialEq, Eq, Structural)]
pub enum PricingSource {
    /// Those of the local file.
    Override,
    /// Those that memory gave.
    Recall,
    /// A coding CLI costs nothing.
    Free,
}

/// Which prices a task goes by: the local file's, else memory's, else none for a coding CLI.
pub open spec fn pricing_source(overridden: bool, recalled: bool, local_cli: bool) -> Option<
    PricingSource,
> {
    if overridden {
        Some(PricingSource::Override)
    } else if recalled {
        Some(PricingSource::Recall)
    } else if local_cli {
        Some(PricingSource::Free)
    } else {
        None
    }
}

/// Which prices a task goes by.
pub fn resolve_model_pricing(model_id: &str, overridden: bool, recalled: bool, local_cli: bool) -> (r:
    Result<PricingSource, String>)
    ensures
        match r {
            Ok(source) => pricing_source(overridden, recalled, local_cli) == Some(source),
            Err(message) => pricing_source(overridden, recalled, local_cli) is None && message@
                == "missing pricing for model "@ + model_id@ + "; add it to "@
                + DEFAULT_PRICING_CONFIG_DISPLAY_PATH@
                + " or ensure memory recall did not provide payload_meta.pricing"@,
        },
{
    if overridden {
        Ok(PricingSource::Override)
    } else if recalled {
        Ok(PricingSource::Recall)
    } else if local_cli {
        Ok(PricingSource::Free)
    } else {
        let mut message = "missing pricing for model ".to_owned();
        message.append(model_id);
        message.append("; add it to ");
        message.append(DEFAULT_PRICING_CONFIG_DISPLAY_PATH);
        message.append(" or ensure memory recall did not provide payload_meta.pricing");
        Err(message)
    }
}

/// What is said of a model that the local file has no prices for.
pub fn missing_pricing(model_id: &str) -> (r: String)
    ensures
        r@ == "missing pricing for model "@ + model_id@ + "; add it to "@
            + DEFAULT_PRICING_CONFIG_DISPLAY_PATH@,
{
    let mut message = "missing pricing for model ".to_owned();
    message.append(model_id);
    message.append("; add it to ");
    message.append(DEFAULT_PRICING_CONFIG_DISPLAY_PATH);
    message
}

/// The file in which prices can be set.
pub fn default_pricing_config_path(home: Option<&str>) -> (r: Result<String, String>)
    ensures
        match (r, text::opt_slice(home)) {
            (Ok(path), Some(h)) => path@ == crate::paths::joined_path(
                crate::paths::joined_path(crate::paths::joined_path(h, ".gosh"@), "agent"@),
                "model_pricing.toml"@,
            ),
            (Err(message), None) => message@
                == "could not determine home directory for pricing config"@,
            _ => false,
        },
{
    match home {
        Some(h) => {
            let gosh = crate::paths::join_path(h, ".gosh");
            let agent = crate::paths::join_path(gosh.as_str(), "agent");
            Ok(crate::paths::join_path(agent.as_str(), "model_pricing.toml"))
        },
        None => Err("could not determine home directory for pricing config".to_owned()),
    }
}

/// Prices are what was given, each under its own name: those for input and output must be there,
/// the others cost nothing where they are not, and no price is negative.
pub proof fn law_prices_are_what_was_given(v: JValue)
    ensures
        pricing_in(v) matches Some(p) ==> {
            &&& json::jget(v, "input_per_1k"@) == Some(p.input_per_1k)
            &&& json::jget(v, "output_per_1k"@) == Some(p.output_per_1k)
            &&& json::jget(v, "reasoning_per_1k"@) matches Some(price) ==> p.reasoning_per_1k
                == price
            &&& json::jget(v, "cache_read_per_1k"@) matches Some(price) ==> p.cache_read_per_1k
                == price
            &&& json::jget(v, "cache_write_per_1k"@) matches Some(price) ==> p.cache_write_per_1k
                == price
            &&& json::jget(v, "reasoning_per_1k"@) is None ==> p.reasoning_per_1k == JValue::Int(0)
            &&& json::jget(v, "cache_read_per_1k"@) is None ==> p.cache_read_per_1k == JValue::Int(
                0,
            )
            &&& json::jget(v, "cache_write_per_1k"@) is None ==> p.cache_write_per_1k
                == JValue::Int(0)
        },
        json::jget(v, "input_per_1k"@) is None ==> pricing_in(v) is None,
        json::jget(v, "output_per_1k"@) is None ==> pricing_in(v) is None,
        json::jget(v, "input_per_1k"@) matches Some(JValue::Int(n)) ==> n < 0 ==> pricing_in(
            v,
        ) is None,
{
}

/// The prices of the local file hold before those that memory gave, and only a coding CLI is free.
pub proof fn law_local_prices_win(recalled: bool, local_cli: bool)
    ensures
        pricing_source(true, recalled, local_cli) == Some(PricingSource::Override),
        pricing_source(false, true, local_cli) == Some(PricingSource::Recall),
        pricing_source(false, false, true) == Some(PricingSource::Free),
        pricing_source(false, false, false) is None,
{
}

} // verus!
