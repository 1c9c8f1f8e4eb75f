use vstd::prelude::*;
use crate::decimal::Decimal;

verus! {

/// The kinds of target that a discount may apply to.
#[derive(Clone, Copy, Debug, PartialEq, Eq, Structural)]
pub enum DiscountClass {
    Order,
    Product,
    Shipping,
}

/// One tag-presence fact of a product: whether it carries `tag`.
#[derive(Clone, Debug)]
pub struct HasTag {
    pub tag: String,
    pub has_tag: bool,
}

#[derive(Clone, Debug)]
pub struct Product {
    pub has_tags: Vec<HasTag>,
}

#[derive(Clone, Debug)]
pub struct ProductVariant {
    pub product: Product,
}

/// What a cart line buys; only a product variant carries product data.
#[derive(Clone, Debug)]
pub enum Merchandise {
    ProductVariant(ProductVariant),
    CustomProduct,
}

#[derive(Clone, Debug)]
pub struct CartLine {
    pub id: String,
    pub merchandise: Merchandise,
}

#[derive(Clone, Debug)]
pub struct Cart {
    pub lines: Vec<CartLine>,
}

/// The discount being evaluated: its classes and, when attached, its raw
/// configuration payload.
#[derive(Clone, Debug)]
pub struct Discount {
    pub discount_classes: Vec<DiscountClass>,
    pub metafield: Option<String>,
}

/// One discount-evaluation request.
#[derive(Clone, Debug)]
pub struct Input {
    pub discount: Discount,
    pub cart: Cart,
}

/// A whole cart line as a discount target; `quantity: None` leaves the line's
/// quantity unrestricted.
#[derive(Clone, Debug)]
pub struct CartLineTarget {
    pub id: String,
    pub quantity: Option<u64>,
}

#[derive(Clone, Debug)]
pub enum ProductDiscountCandidateTarget {
    CartLine(CartLineTarget),
}

#[derive(Clone, Copy, Debug)]
pub struct Percentage {
    pub value: Decimal,
}

#[derive(Clone, Copy, Debug)]
pub enum ProductDiscountCandidateValue {
    Percentage(Percentage),
}

#[derive(Clone, Debug)]
pub struct ProductDiscountCandidate {
    pub targets: Vec<ProductDiscountCandidateTarget>,
    pub message: Option<String>,
    pub value: ProductDiscountCandidateValue,
    pub associated_discount_code: Option<String>,
}

/// How many of an operation's candidates are applied.
#[derive(Clone, Copy, Debug, PartialEq, Eq, Structural)]
pub enum ProductDiscountSelectionStrategy {
    First,
    Maximum,
    All,
}

#[derive(Clone, Debug)]
pub struct ProductDiscountsAddOperation {
    pub selection_strategy: ProductDiscountSelectionStrategy,
    pub candidates: Vec<ProductDiscountCandidate>,
}

#[derive(Clone, Debug)]
pub enum CartOperation {
    ProductDiscountsAdd(ProductDiscountsAddOperation),
}

/// The answer to one request: zero or more operations.
#[derive(Clone, Debug)]
pub struct CartLinesDiscountsGenerateRunResult {
    pub operations: Vec<CartOperation>,
}

/// The mathematical value of a candidate.
pub struct CandidateModel {
    /// The targeted line ids, each with its quantity restriction.
    pub targets: Seq<(Seq<char>, Option<u64>)>,
    pub message: Option<Seq<char>>,
    pub percentage: Decimal,
    pub discount_code: Option<Seq<char>>,
}

/// The mathematical value of an operation.
pub struct OperationModel {
    pub strategy: ProductDiscountSelectionStrategy,
    pub candidates: Seq<CandidateModel>,
}

impl View for ProductDiscountCandidateTarget {
    type V = (Seq<char>, Option<u64>);

    open spec fn view(&self) -> (Seq<char>, Option<u64>) {
        match self {
            ProductDiscountCandidateTarget::CartLine(t) => (t.id@, t.quantity),
        }
    }
}

pub open spec fn opt_view(s: Option<String>) -> Option<Seq<char>> {
    match s {
        Some(v) => Some(v@),
        None => None,
    }
}

impl View for ProductDiscountCandidate {
    type V = CandidateModel;

    open spec fn view(&self) -> CandidateModel {
        CandidateModel {
            targets: self.targets@.map_values(|t: ProductDiscountCandidateTarget| t@),
            message: opt_view(self.message),
            percentage: match self.value {
                ProductDiscountCandidateValue::Percentage(p) => p.value,
            },
            discount_code: opt_view(self.associated_discount_code),
        }
    }
}

impl View for CartOperation {
    type V = OperationModel;

    open spec fn view(&self) -> OperationModel {
        match self {
            CartOperation::ProductDiscountsAdd(op) => OperationModel {
                strategy: op.selection_strategy,
                candidates: op.candidates@.map_values(|c: ProductDiscountCandidate| c@),
            },
        }
    }
}

impl View for CartLinesDiscountsGenerateRunResult {
    type V = Seq<OperationModel>;

    open spec fn view(&self) -> Seq<OperationModel> {
        self.operations@.map_values(|o: CartOperation| o@)
    }
}

} // verus!
