use vstd::prelude::*;
use crate::decimal::{Decimal, parse_number};
use crate::model::opt_view;

verus! {

/// The resolved settings of one discount: the percentage taken off, and the
/// tag whose presence on a product excludes it.
#[derive(Clone, Debug)]
pub struct DiscountConfiguration {
    pub percentage: Decimal,
    pub excluded_tag: String,
}

impl View for DiscountConfiguration {
    type V = (Decimal, Seq<char>);

    open spec fn view(&self) -> (Decimal, Seq<char>) {
        (self.percentage, self.excluded_tag@)
    }
}

/// The key of the percentage in a configuration payload.
pub const PERCENTAGE_KEY: &'static str = "percentage";

/// The key of the excluded tag in a configuration payload.
pub const EXCLUDED_TAG_KEY: &'static str = "excludedTag";

/// Ten percent.
pub open spec fn default_percentage() -> Decimal {
    Decimal { negative: false, mantissa: 1, exponent: 1 }
}

pub open spec fn default_excluded_tag() -> Seq<char> {
    "NO_DISCOUNT"@
}

pub open spec fn default_configuration() -> (Decimal, Seq<char>) {
    (default_percentage(), default_excluded_tag())
}

/// What serde_json reads from `payload`: the text of the number under
/// `percentage_key` and the string under `tag_key`, when the payload is a JSON
/// object that holds both with those types.
pub uninterp spec fn decoded_settings(
    payload: Seq<char>,
    percentage_key: Seq<char>,
    tag_key: Seq<char>,
) -> Option<(Seq<char>, Seq<char>)>;

pub open spec fn pair_view(r: Option<(String, String)>) -> Option<(Seq<char>, Seq<char>)> {
    match r {
        Some((a, b)) => Some((a@, b@)),
        None => None,
    }
}

/// Relies on serde_json::from_str into a serde_json::Value, then Value::get,
/// Value::as_number, Value::as_str and the Display of serde_json::Number: the
/// text of the number under `percentage_key` and the string under `tag_key`,
/// or `None` when the payload is not JSON, not an object, lacks either field
/// or holds it with another type. The result depends on the arguments alone.
#[verifier::external_body]
fn decode_settings(payload: &str, percentage_key: &str, tag_key: &str) -> (r: Option<(String, String)>)
    ensures
        pair_view(r) == decoded_settings(payload@, percentage_key@, tag_key@),
{
    let value: serde_json::Value = serde_json::from_str(payload).ok()?;
    let number = value.get(percentage_key)?.as_number()?;
    let tag = value.get(tag_key)?.as_str()?;
    Some((number.to_string(), tag.to_string()))
}

/// The configuration that decoded fields give: the number read as a decimal
/// and the tag verbatim; the defaults when there are no fields or the number
/// cannot be read.
pub open spec fn configuration_of_fields(fields: Option<(Seq<char>, Seq<char>)>) -> (Decimal, Seq<char>) {
    match fields {
        Some((number, tag)) => match parse_number(number) {
            Some(d) => (d, tag),
            None => default_configuration(),
        },
        None => default_configuration(),
    }
}

/// The configuration of a discount whose payload is `payload`.
pub open spec fn resolved_configuration(payload: Option<Seq<char>>) -> (Decimal, Seq<char>) {
    match payload {
        Some(p) => configuration_of_fields(decoded_settings(p, PERCENTAGE_KEY@, EXCLUDED_TAG_KEY@)),
        None => default_configuration(),
    }
}

impl Default for DiscountConfiguration {
    /// Ten percent off, excluding products tagged `NO_DISCOUNT`.
    fn default() -> (r: DiscountConfiguration)
        ensures
            r@ == default_configuration(),
    {
        proof {
            reveal_strlit("NO_DISCOUNT");
        }
        DiscountConfiguration {
            percentage: Decimal { negative: false, mantissa: 1, exponent: 1 },
            excluded_tag: "NO_DISCOUNT".to_owned(),
        }
    }
}

/// Builds the configuration from fields already decoded from a payload.
pub fn configuration_from_fields(fields: Option<(String, String)>) -> (r: DiscountConfiguration)
    ensures
        r@ == configuration_of_fields(pair_view(fields)),
{
    match fields {
        Some((number, tag)) => match Decimal::parse(number.as_str()) {
            Some(d) => DiscountConfiguration { percentage: d, excluded_tag: tag },
            None => DiscountConfiguration::default(),
        },
        None => DiscountConfiguration::default(),
    }
}

/// Resolves the configuration of a discount from its optional payload; an
/// absent or undecodable payload gives the defaults.
pub fn resolve_configuration(payload: &Option<String>) -> (r: DiscountConfiguration)
    ensures
        r@ == resolved_configuration(opt_view(*payload)),
{
    match payload {
        Some(p) => configuration_from_fields(decode_settings(p.as_str(), PERCENTAGE_KEY, EXCLUDED_TAG_KEY)),
        None => DiscountConfiguration::default(),
    }
}

} // verus!
