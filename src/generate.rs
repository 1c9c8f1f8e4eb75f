use vstd::prelude::*;
use crate::config::{DiscountConfiguration, resolve_configuration, resolved_configuration};
use crate::decimal::{Decimal, render};
use crate::model::{
    CandidateModel, CartLine, CartLineTarget, CartLinesDiscountsGenerateRunResult, CartOperation,
    DiscountClass, Input, Merchandise, OperationModel, Percentage, Product,
    ProductDiscountCandidate, ProductDiscountCandidateTarget, ProductDiscountCandidateValue,
    ProductDiscountSelectionStrategy, ProductDiscountsAddOperation, opt_view,
};

verus! {

/// Whether `p` carries `tag`: some fact names exactly `tag` with presence true.
pub open spec fn carries_tag(p: Product, tag: Seq<char>) -> bool {
    exists|i: int|
        0 <= i < p.has_tags@.len() && (#[trigger] p.has_tags@[i]).tag@ == tag
            && p.has_tags@[i].has_tag
}

/// A line earns a candidate when it buys a product variant whose product does
/// not carry the excluded tag.
pub open spec fn is_eligible(line: CartLine, excluded_tag: Seq<char>) -> bool {
    match line.merchandise {
        Merchandise::ProductVariant(v) => !carries_tag(v.product, excluded_tag),
        _ => false,
    }
}

/// The message shown with a candidate, such as `10% off`.
pub open spec fn offer_text(percentage: Decimal) -> Seq<char> {
    render(percentage) + "% off"@
}

/// The candidate for the line `line_id`: the whole line, at the configured percentage.
pub open spec fn candidate_model(line_id: Seq<char>, config: (Decimal, Seq<char>)) -> CandidateModel {
    CandidateModel {
        targets: seq![(line_id, None)],
        message: Some(offer_text(config.0)),
        percentage: config.0,
        discount_code: None,
    }
}

/// One candidate per eligible line, in the order of the lines.
pub open spec fn candidates_model(lines: Seq<CartLine>, config: (Decimal, Seq<char>)) -> Seq<CandidateModel>
    decreases lines.len(),
{
    if lines.len() == 0 {
        Seq::empty()
    } else {
        let rest = candidates_model(lines.drop_last(), config);
        if is_eligible(lines.last(), config.1) {
            rest.push(candidate_model(lines.last().id@, config))
        } else {
            rest
        }
    }
}

/// No operation for no candidates; else one that applies them all.
pub open spec fn operations_model(candidates: Seq<CandidateModel>) -> Seq<OperationModel> {
    if candidates.len() == 0 {
        Seq::empty()
    } else {
        seq![OperationModel { strategy: ProductDiscountSelectionStrategy::All, candidates }]
    }
}

pub open spec fn applies_to_products(classes: Seq<DiscountClass>) -> bool {
    classes.contains(DiscountClass::Product)
}

/// The answer to `input` under the configuration `config`.
pub open spec fn run_model(input: Input, config: (Decimal, Seq<char>)) -> Seq<OperationModel> {
    if applies_to_products(input.discount.discount_classes@) {
        operations_model(candidates_model(input.cart.lines@, config))
    } else {
        Seq::empty()
    }
}

/// The answer to `input`, under the configuration its payload resolves to.
pub open spec fn generate_run_model(input: Input) -> Seq<OperationModel> {
    run_model(input, resolved_configuration(opt_view(input.discount.metafield)))
}

/// Whether the discount may apply to products.
pub fn has_product_class(classes: &Vec<DiscountClass>) -> (r: bool)
    ensures
        r == applies_to_products(classes@),
{
    let mut i: usize = 0;
    while i < classes.len()
        invariant
            i <= classes@.len(),
            forall|j: int| 0 <= j < i ==> classes@[j] != DiscountClass::Product,
        decreases classes@.len() - i,
    {
        if classes[i] == DiscountClass::Product {
            assert(classes@[i as int] == DiscountClass::Product);
            return true;
        }
        i = i + 1;
    }
    false
}

/// Whether `product` carries `tag` (exact, case-sensitive comparison).
pub fn carries_excluded_tag(product: &Product, tag: &String) -> (r: bool)
    ensures
        r == carries_tag(*product, tag@),
{
    let mut i: usize = 0;
    while i < product.has_tags.len()
        invariant
            i <= product.has_tags@.len(),
            forall|j: int|
                0 <= j < i ==> !((#[trigger] product.has_tags@[j]).tag@ == tag@
                    && product.has_tags@[j].has_tag),
        decreases product.has_tags@.len() - i,
    {
        let fact = &product.has_tags[i];
        if fact.tag == *tag && fact.has_tag {
            return true;
        }
        i = i + 1;
    }
    false
}

/// The message for a candidate at `percentage`, such as `10% off`.
pub fn offer_message(percentage: Decimal) -> (r: String)
    ensures
        r@ == offer_text(percentage),
{
    proof {
        reveal_strlit("% off");
    }
    let mut r = percentage.to_text();
    r.append("% off");
    r
}

/// The candidate that discounts the whole line `line_id` at the configured percentage.
pub fn build_candidate(line_id: &String, config: &DiscountConfiguration) -> (r: ProductDiscountCandidate)
    ensures
        r@ == candidate_model(line_id@, config@),
{
    let target = ProductDiscountCandidateTarget::CartLine(
        CartLineTarget { id: line_id.clone(), quantity: None },
    );
    let r = ProductDiscountCandidate {
        targets: vec![target],
        message: Some(offer_message(config.percentage)),
        value: ProductDiscountCandidateValue::Percentage(Percentage { value: config.percentage }),
        associated_discount_code: None,
    };
    assert(r@.targets =~= seq![(line_id@, None::<u64>)]);
    r
}

/// One candidate per eligible line, in the cart's order.
pub fn generate_candidates(lines: &Vec<CartLine>, config: &DiscountConfiguration) -> (r: Vec<
    ProductDiscountCandidate,
>)
    ensures
        r@.map_values(|c: ProductDiscountCandidate| c@) == candidates_model(lines@, config@),
{
    let mut candidates: Vec<ProductDiscountCandidate> = Vec::new();
    let mut i: usize = 0;
    while i < lines.len()
        invariant
            i <= lines@.len(),
            candidates@.map_values(|c: ProductDiscountCandidate| c@) == candidates_model(
                lines@.take(i as int),
                config@,
            ),
        decreases lines@.len() - i,
    {
        let line = &lines[i];
        let ghost before = candidates@;
        assert(lines@.take(i + 1).drop_last() =~= lines@.take(i as int));
        assert(lines@.take(i + 1).last() == lines@[i as int]);
        match &line.merchandise {
            Merchandise::ProductVariant(variant) => {
                if !carries_excluded_tag(&variant.product, &config.excluded_tag) {
                    let c = build_candidate(&line.id, config);
                    candidates.push(c);
                    assert(candidates@.map_values(|c: ProductDiscountCandidate| c@)
                        =~= before.map_values(|c: ProductDiscountCandidate| c@).push(c@));
                }
            },
            _ => {},
        }
        i = i + 1;
    }
    assert(lines@.take(lines@.len() as int) =~= lines@);
    candidates
}

/// Wraps the candidates in one operation that applies them all, or gives no
/// operation when there are none.
pub fn operations_for(candidates: Vec<ProductDiscountCandidate>) -> (r: Vec<CartOperation>)
    ensures
        r@.map_values(|o: CartOperation| o@) == operations_model(
            candidates@.map_values(|c: ProductDiscountCandidate| c@),
        ),
{
    if candidates.len() == 0 {
        let r: Vec<CartOperation> = Vec::new();
        assert(r@.map_values(|o: CartOperation| o@) =~= Seq::<OperationModel>::empty());
        return r;
    }
    let r = vec![
        CartOperation::ProductDiscountsAdd(
            ProductDiscountsAddOperation {
                selection_strategy: ProductDiscountSelectionStrategy::All,
                candidates,
            },
        ),
    ];
    assert(r@.map_values(|o: CartOperation| o@) =~~= operations_model(
        candidates@.map_values(|c: ProductDiscountCandidate| c@),
    ));
    r
}

/// The answer to `input` under an already resolved configuration.
pub fn run_with_configuration(input: &Input, config: &DiscountConfiguration) -> (r:
    CartLinesDiscountsGenerateRunResult)
    ensures
        r@ == run_model(*input, config@),
{
    if !has_product_class(&input.discount.discount_classes) {
        let r = CartLinesDiscountsGenerateRunResult { operations: Vec::new() };
        assert(r@ =~= Seq::<OperationModel>::empty());
        return r;
    }
    let candidates = generate_candidates(&input.cart.lines, config);
    CartLinesDiscountsGenerateRunResult { operations: operations_for(candidates) }
}

/// Computes the line discounts for one request: resolves the discount's
/// configuration, then proposes a candidate for each eligible line.
pub fn cart_lines_discounts_generate_run(input: &Input) -> (r: CartLinesDiscountsGenerateRunResult)
    ensures
        r@ == generate_run_model(*input),
{
    if !has_product_class(&input.discount.discount_classes) {
        let r = CartLinesDiscountsGenerateRunResult { operations: Vec::new() };
        assert(r@ =~= Seq::<OperationModel>::empty());
        return r;
    }
    let config = resolve_configuration(&input.discount.metafield);
    run_with_configuration(input, &config)
}

} // verus!
