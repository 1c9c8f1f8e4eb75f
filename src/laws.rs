use vstd::prelude::*;
use crate::config::{
    EXCLUDED_TAG_KEY, PERCENTAGE_KEY, decoded_settings, default_configuration,
    default_percentage, resolved_configuration,
};
use crate::decimal::{Decimal, digit_char, nat_digits, parse_number, render, zeros};
use crate::generate::{
    applies_to_products, candidate_model, candidates_model, carries_tag, generate_run_model,
    is_eligible, offer_text, run_model,
};
use crate::model::{
    CandidateModel, CartLine, CartLinesDiscountsGenerateRunResult, Input, opt_view,
};

verus! {

/// No two lines share an id.
pub open spec fn ids_unique(lines: Seq<CartLine>) -> bool {
    forall|a: int, b: int| 0 <= a < b < lines.len() ==> lines[a].id@ != lines[b].id@
}

/// Some candidate targets the line `id`.
pub open spec fn has_candidate_for(candidates: Seq<CandidateModel>, id: Seq<char>) -> bool {
    exists|j: int| 0 <= j < candidates.len() && (#[trigger] candidates[j]).targets[0].0 == id
}

/// Every candidate comes from an eligible line, and every eligible line has its candidate.
proof fn lemma_candidates_origin(lines: Seq<CartLine>, config: (Decimal, Seq<char>))
    ensures
        forall|j: int|
            0 <= j < candidates_model(lines, config).len() ==> exists|k: int|
                0 <= k < lines.len() && is_eligible(lines[k], config.1)
                    && #[trigger] candidates_model(lines, config)[j] == candidate_model(
                    lines[k].id@,
                    config,
                ),
        forall|k: int|
            0 <= k < lines.len() && is_eligible(#[trigger] lines[k], config.1) ==> exists|j: int|
                0 <= j < candidates_model(lines, config).len()
                    && candidates_model(lines, config)[j] == candidate_model(lines[k].id@, config),
    decreases lines.len(),
{
    if lines.len() > 0 {
        let init = lines.drop_last();
        lemma_candidates_origin(init, config);
        let cs = candidates_model(lines, config);
        let ci = candidates_model(init, config);
        assert forall|j: int| 0 <= j < cs.len() implies exists|k: int|
            0 <= k < lines.len() && is_eligible(lines[k], config.1) && #[trigger] cs[j]
                == candidate_model(lines[k].id@, config) by {
            if j < ci.len() {
                assert(cs[j] == ci[j]);
                let k = choose|k: int|
                    0 <= k < init.len() && is_eligible(init[k], config.1) && ci[j]
                        == candidate_model(init[k].id@, config);
                assert(lines[k] == init[k]);
            } else {
                assert(cs[j] == candidate_model(lines[lines.len() - 1].id@, config));
            }
        }
        assert forall|k: int| 0 <= k < lines.len() && is_eligible(#[trigger] lines[k], config.1) implies exists|j: int|
            0 <= j < cs.len() && cs[j] == candidate_model(lines[k].id@, config) by {
            if k < init.len() {
                assert(init[k] == lines[k]);
                let j = choose|j: int|
                    0 <= j < ci.len() && ci[j] == candidate_model(init[k].id@, config);
                assert(cs[j] == ci[j]);
            } else {
                assert(cs[ci.len() as int] == candidate_model(lines[k].id@, config));
            }
        }
    }
}

/// A discount without the product class proposes nothing, whatever the cart
/// and the configuration.
pub proof fn lemma_class_gating(input: Input, config: (Decimal, Seq<char>))
    requires
        !applies_to_products(input.discount.discount_classes@),
    ensures
        run_model(input, config).len() == 0,
        generate_run_model(input).len() == 0,
{
}

/// Among lines with distinct ids, a product-variant line gets a candidate
/// exactly when its product does not carry the excluded tag.
pub proof fn lemma_exclusion(lines: Seq<CartLine>, config: (Decimal, Seq<char>), k: int)
    requires
        ids_unique(lines),
        0 <= k < lines.len(),
        lines[k].merchandise is ProductVariant,
    ensures
        has_candidate_for(candidates_model(lines, config), lines[k].id@) <==> !carries_tag(
            lines[k].merchandise->ProductVariant_0.product,
            config.1,
        ),
{
    lemma_candidates_origin(lines, config);
    let cs = candidates_model(lines, config);
    if is_eligible(lines[k], config.1) {
        let j = choose|j: int| 0 <= j < cs.len() && cs[j] == candidate_model(lines[k].id@, config);
        assert(cs[j].targets[0].0 == lines[k].id@);
    }
    if has_candidate_for(cs, lines[k].id@) {
        let j = choose|j: int| 0 <= j < cs.len() && (#[trigger] cs[j]).targets[0].0 == lines[k].id@;
        let k2 = choose|k2: int|
            0 <= k2 < lines.len() && is_eligible(lines[k2], config.1) && cs[j] == candidate_model(
                lines[k2].id@,
                config,
            );
        assert(cs[j].targets[0].0 == lines[k2].id@);
        assert(k2 == k);
    }
}

/// Among lines with distinct ids, a line that does not buy a product variant
/// never gets a candidate.
pub proof fn lemma_non_variant_skipped(lines: Seq<CartLine>, config: (Decimal, Seq<char>), k: int)
    requires
        ids_unique(lines),
        0 <= k < lines.len(),
        !(lines[k].merchandise is ProductVariant),
    ensures
        !has_candidate_for(candidates_model(lines, config), lines[k].id@),
{
    lemma_candidates_origin(lines, config);
    let cs = candidates_model(lines, config);
    if has_candidate_for(cs, lines[k].id@) {
        let j = choose|j: int| 0 <= j < cs.len() && (#[trigger] cs[j]).targets[0].0 == lines[k].id@;
        let k2 = choose|k2: int|
            0 <= k2 < lines.len() && is_eligible(lines[k2], config.1) && cs[j] == candidate_model(
                lines[k2].id@,
                config,
            );
        assert(cs[j].targets[0].0 == lines[k2].id@);
        assert(k2 == k);
    }
}

/// Whether `payload` is absent or cannot be read as a configuration.
pub open spec fn payload_unusable(payload: Option<Seq<char>>) -> bool {
    match payload {
        None => true,
        Some(p) => match decoded_settings(p, PERCENTAGE_KEY@, EXCLUDED_TAG_KEY@) {
            None => true,
            Some((number, _tag)) => parse_number(number) is None,
        },
    }
}

/// An absent or unreadable payload gives ten percent off, excluding the tag
/// `NO_DISCOUNT`, and every candidate then reads `10% off`.
pub proof fn lemma_default_fallback(input: Input)
    requires
        payload_unusable(opt_view(input.discount.metafield)),
    ensures
        resolved_configuration(opt_view(input.discount.metafield)) == default_configuration(),
        default_configuration().1 == "NO_DISCOUNT"@,
        forall|j: int|
            0 <= j < candidates_model(input.cart.lines@, default_configuration()).len() ==> {
                let c = #[trigger] candidates_model(input.cart.lines@, default_configuration())[j];
                &&& c.message == Some("10% off"@)
                &&& c.percentage == default_percentage()
            },
{
    reveal_strlit("10% off");
    reveal_strlit("% off");
    assert(nat_digits(1) == seq![digit_char(1)]);
    assert(render(default_percentage()) =~= seq!['1', '0']) by {
        assert(zeros(1) =~= seq!['0']);
    }
    assert(offer_text(default_percentage()) =~= "10% off"@);
    lemma_candidates_origin(input.cart.lines@, default_configuration());
}

/// There is never an operation without candidates: every operation holds at
/// least one, and no candidates give no operation.
pub proof fn lemma_no_empty_operation(input: Input, config: (Decimal, Seq<char>))
    ensures
        forall|i: int|
            0 <= i < run_model(input, config).len() ==> (#[trigger] run_model(
                input,
                config,
            )[i]).candidates.len() > 0,
        candidates_model(input.cart.lines@, config).len() == 0 ==> run_model(input, config).len()
            == 0,
{
}

/// Two runs on the same input give the same answer.
pub proof fn lemma_repeatable(
    input: Input,
    first: CartLinesDiscountsGenerateRunResult,
    second: CartLinesDiscountsGenerateRunResult,
)
    requires
        first@ == generate_run_model(input),
        second@ == generate_run_model(input),
    ensures
        first@ == second@,
{
}

} // verus!
