use vstd::prelude::*;
use vstd::string::StringExecFns;
use crate::models::DrinkView;

verus! {

/// The search criteria: each bound is independently optional. `brand`
/// filters by equality; every `min_*`/`max_*` pair is an inclusive range
/// bound. An absent field constrains nothing on that side.
pub struct DrinkSearchParams {
    pub brand: Option<String>,
    pub min_caffeine: Option<i32>,
    pub max_caffeine: Option<i32>,
    pub min_sugar: Option<i32>,
    pub max_sugar: Option<i32>,
    pub min_price_cents: Option<u64>,
    pub max_price_cents: Option<u64>,
}

/// The mathematical value of a [`DrinkSearchParams`].
pub ghost struct FilterView {
    pub brand: Option<Seq<char>>,
    pub min_caffeine: Option<i32>,
    pub max_caffeine: Option<i32>,
    pub min_sugar: Option<i32>,
    pub max_sugar: Option<i32>,
    pub min_price_cents: Option<u64>,
    pub max_price_cents: Option<u64>,
}

impl View for DrinkSearchParams {
    type V = FilterView;

    open spec fn view(&self) -> FilterView {
        FilterView {
            brand: match self.brand {
                Some(ref b) => Some(b@),
                None => None,
            },
            min_caffeine: self.min_caffeine,
            max_caffeine: self.max_caffeine,
            min_sugar: self.min_sugar,
            max_sugar: self.max_sugar,
            min_price_cents: self.min_price_cents,
            max_price_cents: self.max_price_cents,
        }
    }
}

/// One comparison clause of the search predicate. Only these seven
/// column/operator pairs exist; a clause never carries a value, so no
/// filter value can reach the query text.
#[derive(Clone, Copy, PartialEq, Eq, Structural, Debug)]
pub enum Clause {
    BrandEq,
    CaffeineMin,
    CaffeineMax,
    SugarMin,
    SugarMax,
    PriceMin,
    PriceMax,
}

/// One bound parameter value, tagged with its semantic type so that a
/// heterogeneous list never collapses text, integers and money into one
/// representation.
pub enum BindValue {
    Text(String),
    Int(i32),
    Cents(u64),
}

/// The mathematical value of a [`BindValue`].
pub ghost enum BindView {
    Text(Seq<char>),
    Int(i32),
    Cents(u64),
}

impl View for BindValue {
    type V = BindView;

    open spec fn view(&self) -> BindView {
        match self {
            BindValue::Text(s) => BindView::Text(s@),
            BindValue::Int(i) => BindView::Int(*i),
            BindValue::Cents(c) => BindView::Cents(*c),
        }
    }
}

/// The semantic type a position carries: the tag a clause demands and a
/// bound value supplies.
#[derive(Clone, Copy, PartialEq, Eq, Structural, Debug)]
pub enum ParamKind {
    Text,
    Int,
    Cents,
}

/// The value type each clause compares against.
pub open spec fn kind_of_clause(c: Clause) -> ParamKind {
    match c {
        Clause::BrandEq => ParamKind::Text,
        Clause::CaffeineMin => ParamKind::Int,
        Clause::CaffeineMax => ParamKind::Int,
        Clause::SugarMin => ParamKind::Int,
        Clause::SugarMax => ParamKind::Int,
        Clause::PriceMin => ParamKind::Cents,
        Clause::PriceMax => ParamKind::Cents,
    }
}

/// The tag of a bound value.
pub open spec fn kind_of_value(v: BindView) -> ParamKind {
    match v {
        BindView::Text(_) => ParamKind::Text,
        BindView::Int(_) => ParamKind::Int,
        BindView::Cents(_) => ParamKind::Cents,
    }
}

/// The clause list a filter produces: the present criteria in the fixed
/// evaluation order — brand, caffeine bounds, sugar bounds, price bounds.
/// An absent criterion contributes nothing and consumes no position.
pub open spec fn spec_clauses(f: FilterView) -> Seq<Clause> {
    let s = Seq::<Clause>::empty();
    let s = if f.brand is Some {
        s.push(Clause::BrandEq)
    } else {
        s
    };
    let s = if f.min_caffeine is Some {
        s.push(Clause::CaffeineMin)
    } else {
        s
    };
    let s = if f.max_caffeine is Some {
        s.push(Clause::CaffeineMax)
    } else {
        s
    };
    let s = if f.min_sugar is Some {
        s.push(Clause::SugarMin)
    } else {
        s
    };
    let s = if f.max_sugar is Some {
        s.push(Clause::SugarMax)
    } else {
        s
    };
    let s = if f.min_price_cents is Some {
        s.push(Clause::PriceMin)
    } else {
        s
    };
    if f.max_price_cents is Some {
        s.push(Clause::PriceMax)
    } else {
        s
    }
}

/// The bound-value list a filter produces, in lockstep with
/// [`spec_clauses`]: position i of this list is the value clause i
/// compares against.
pub open spec fn spec_values(f: FilterView) -> Seq<BindView> {
    let s = Seq::<BindView>::empty();
    let s = match f.brand {
        Some(b) => s.push(BindView::Text(b)),
        None => s,
    };
    let s = match f.min_caffeine {
        Some(c) => s.push(BindView::Int(c)),
        None => s,
    };
    let s = match f.max_caffeine {
        Some(c) => s.push(BindView::Int(c)),
        None => s,
    };
    let s = match f.min_sugar {
        Some(v) => s.push(BindView::Int(v)),
        None => s,
    };
    let s = match f.max_sugar {
        Some(v) => s.push(BindView::Int(v)),
        None => s,
    };
    let s = match f.min_price_cents {
        Some(p) => s.push(BindView::Cents(p)),
        None => s,
    };
    match f.max_price_cents {
        Some(p) => s.push(BindView::Cents(p)),
        None => s,
    }
}

/// Composes a filter into its ordered clause list and the parallel
/// ordered list of typed values, exactly as [`spec_clauses`] and
/// [`spec_values`] state: present fields appear in the fixed order,
/// absent fields are skipped entirely.
pub fn build_predicate(params: &DrinkSearchParams) -> (r: (Vec<Clause>, Vec<BindValue>))
    ensures
        r.0@ == spec_clauses(params@),
        r.1@.map_values(|v: BindValue| v@) == spec_values(params@),
        r.0@.len() == r.1@.len(),
        r.0@.len() <= 7,
{
    let mut clauses: Vec<Clause> = Vec::new();
    let mut values: Vec<BindValue> = Vec::new();
    if let Some(b) = &params.brand {
        clauses.push(Clause::BrandEq);
        values.push(BindValue::Text(b.clone()));
    }
    if let Some(c) = params.min_caffeine {
        clauses.push(Clause::CaffeineMin);
        values.push(BindValue::Int(c));
    }
    if let Some(c) = params.max_caffeine {
        clauses.push(Clause::CaffeineMax);
        values.push(BindValue::Int(c));
    }
    if let Some(s) = params.min_sugar {
        clauses.push(Clause::SugarMin);
        values.push(BindValue::Int(s));
    }
    if let Some(s) = params.max_sugar {
        clauses.push(Clause::SugarMax);
        values.push(BindValue::Int(s));
    }
    if let Some(p) = params.min_price_cents {
        clauses.push(Clause::PriceMin);
        values.push(BindValue::Cents(p));
    }
    if let Some(p) = params.max_price_cents {
        clauses.push(Clause::PriceMax);
        values.push(BindValue::Cents(p));
    }
    proof {
        assert(clauses@ =~= spec_clauses(params@));
        assert(values@.map_values(|v: BindValue| v@) =~= spec_values(params@));
    }
    (clauses, values)
}

/// Clause i always binds value i: for any filter the two lists have the
/// same length, and at every position the clause's column type equals the
/// tag of the bound value. The correspondence is structural, not kept by
/// convention.
#[verifier::rlimit(50)]
pub proof fn lemma_positional_correspondence(f: FilterView)
    ensures
        spec_clauses(f).len() == spec_values(f).len(),
        forall|i: int|
            0 <= i < spec_clauses(f).len() ==> kind_of_clause(spec_clauses(f)[i]) == kind_of_value(
                spec_values(f)[i],
            ),
{
}

/// The fixed structural fragment of one clause: column name and
/// comparison operator, ending just before the positional placeholder's
/// digit. No other text ever enters the query.
pub open spec fn clause_column_op(c: Clause) -> Seq<char> {
    match c {
        Clause::BrandEq => "brand = $"@,
        Clause::CaffeineMin => "caffeine_content >= $"@,
        Clause::CaffeineMax => "caffeine_content <= $"@,
        Clause::SugarMin => "sugar_content >= $"@,
        Clause::SugarMax => "sugar_content <= $"@,
        Clause::PriceMin => "price >= $"@,
        Clause::PriceMax => "price <= $"@,
    }
}

/// The digit of placeholder position `n`. At most seven clauses exist,
/// so a single digit always suffices.
pub open spec fn spec_digit(n: int) -> Seq<char> {
    if n == 1 {
        "1"@
    } else if n == 2 {
        "2"@
    } else if n == 3 {
        "3"@
    } else if n == 4 {
        "4"@
    } else if n == 5 {
        "5"@
    } else if n == 6 {
        "6"@
    } else {
        "7"@
    }
}

/// The text one clause contributes at zero-based position `i`: an
/// `" AND "` separator for every clause after the first, the fixed
/// column/operator fragment, and the placeholder digit `i + 1`.
pub open spec fn spec_piece(c: Clause, i: int) -> Seq<char> {
    (if i == 0 {
        Seq::<char>::empty()
    } else {
        " AND "@
    }) + clause_column_op(c) + spec_digit(i + 1)
}

/// The concatenated clause text of a whole clause list.
pub open spec fn spec_pieces(cs: Seq<Clause>) -> Seq<char>
    decreases cs.len(),
{
    if cs.len() == 0 {
        Seq::<char>::empty()
    } else {
        spec_pieces(cs.drop_last()) + spec_piece(cs.last(), cs.len() - 1)
    }
}

/// The full statement text for a clause list: the fixed selection,
/// then — only if any clause exists — `" WHERE "` and the AND-joined
/// clause text. An empty list yields the unrestricted query.
pub open spec fn spec_render_sql(cs: Seq<Clause>) -> Seq<char> {
    if cs.len() == 0 {
        "SELECT * FROM drinks"@
    } else {
        "SELECT * FROM drinks"@ + " WHERE "@ + spec_pieces(cs)
    }
}

/// The statement text a filter produces.
pub open spec fn spec_search_sql(f: FilterView) -> Seq<char> {
    spec_render_sql(spec_clauses(f))
}

/// The structural fragment of a clause, as executable text.
fn clause_fragment(c: Clause) -> (r: &'static str)
    ensures
        r@ == clause_column_op(c),
{
    match c {
        Clause::BrandEq => "brand = $",
        Clause::CaffeineMin => "caffeine_content >= $",
        Clause::CaffeineMax => "caffeine_content <= $",
        Clause::SugarMin => "sugar_content >= $",
        Clause::SugarMax => "sugar_content <= $",
        Clause::PriceMin => "price >= $",
        Clause::PriceMax => "price <= $",
    }
}

/// The placeholder digit for one-based position `n`.
fn position_digit(n: usize) -> (r: &'static str)
    requires
        1 <= n <= 7,
    ensures
        r@ == spec_digit(n as int),
{
    match n {
        1 => "1",
        2 => "2",
        3 => "3",
        4 => "4",
        5 => "5",
        6 => "6",
        _ => "7",
    }
}

/// Renders a clause list into the final statement text, exactly as
/// [`spec_render_sql`] states. Only fixed fragments and placeholder
/// digits are assembled; bound values never appear in the text.
pub fn render_search_sql(clauses: &Vec<Clause>) -> (r: String)
    requires
        clauses@.len() <= 7,
    ensures
        r@ == spec_render_sql(clauses@),
{
    let mut s = String::from_str("SELECT * FROM drinks");
    let n = clauses.len();
    if n > 0 {
        s.append(" WHERE ");
        let mut i: usize = 0;
        while i < n
            invariant
                0 < n == clauses@.len() <= 7,
                i <= n,
                s@ == "SELECT * FROM drinks"@ + " WHERE "@ + spec_pieces(clauses@.take(i as int)),
            decreases n - i,
        {
            if i > 0 {
                s.append(" AND ");
            }
            s.append(clause_fragment(clauses[i]));
            s.append(position_digit(i + 1));
            proof {
                let cs = clauses@;
                assert(cs.take(i + 1).drop_last() =~= cs.take(i as int));
                assert(cs.take(i + 1).last() == cs[i as int]);
                assert(s@ =~= "SELECT * FROM drinks"@ + " WHERE "@ + spec_pieces(
                    cs.take(i + 1),
                ));
            }
            i = i + 1;
        }
        proof {
            assert(clauses@.take(n as int) =~= clauses@);
        }
    }
    s
}

/// Whether two filters have the same shape: the same criteria present,
/// whatever the values.
pub open spec fn same_shape(a: FilterView, b: FilterView) -> bool {
    &&& a.brand is Some <==> b.brand is Some
    &&& a.min_caffeine is Some <==> b.min_caffeine is Some
    &&& a.max_caffeine is Some <==> b.max_caffeine is Some
    &&& a.min_sugar is Some <==> b.min_sugar is Some
    &&& a.max_sugar is Some <==> b.max_sugar is Some
    &&& a.min_price_cents is Some <==> b.min_price_cents is Some
    &&& a.max_price_cents is Some <==> b.max_price_cents is Some
}

/// Injection safety: the statement text is a function of which criteria
/// are present alone. Two filters of the same shape — whatever text or
/// metacharacters their values hold — produce the identical clause list
/// and the identical statement text, so a value can never alter the
/// query structure.
pub proof fn lemma_sql_value_blind(a: FilterView, b: FilterView)
    requires
        same_shape(a, b),
    ensures
        spec_clauses(a) == spec_clauses(b),
        spec_search_sql(a) == spec_search_sql(b),
{
}

/// What it means for a drink to satisfy a filter: every present
/// criterion holds — brand by literal equality of the whole value, each
/// numeric bound inclusively — and the criteria combine by logical AND.
/// An empty filter is unconditionally true.
pub open spec fn spec_matches(f: FilterView, d: DrinkView) -> bool {
    &&& match f.brand {
        Some(b) => d.brand == b,
        None => true,
    }
    &&& match f.min_caffeine {
        Some(c) => d.caffeine_content >= c,
        None => true,
    }
    &&& match f.max_caffeine {
        Some(c) => d.caffeine_content <= c,
        None => true,
    }
    &&& match f.min_sugar {
        Some(v) => d.sugar_content >= v,
        None => true,
    }
    &&& match f.max_sugar {
        Some(v) => d.sugar_content <= v,
        None => true,
    }
    &&& match f.min_price_cents {
        Some(p) => d.price_cents >= p,
        None => true,
    }
    &&& match f.max_price_cents {
        Some(p) => d.price_cents <= p,
        None => true,
    }
}

/// Decides [`spec_matches`] on a concrete drink.
pub fn drink_matches(params: &DrinkSearchParams, d: &crate::models::Drink) -> (r: bool)
    ensures
        r == spec_matches(params@, d@),
{
    let brand_ok = match &params.brand {
        Some(b) => d.brand == *b,
        None => true,
    };
    let min_caffeine_ok = match params.min_caffeine {
        Some(c) => d.caffeine_content >= c,
        None => true,
    };
    let max_caffeine_ok = match params.max_caffeine {
        Some(c) => d.caffeine_content <= c,
        None => true,
    };
    let min_sugar_ok = match params.min_sugar {
        Some(v) => d.sugar_content >= v,
        None => true,
    };
    let max_sugar_ok = match params.max_sugar {
        Some(v) => d.sugar_content <= v,
        None => true,
    };
    let min_price_ok = match params.min_price_cents {
        Some(p) => d.price_cents >= p,
        None => true,
    };
    let max_price_ok = match params.max_price_cents {
        Some(p) => d.price_cents <= p,
        None => true,
    };
    brand_ok && min_caffeine_ok && max_caffeine_ok && min_sugar_ok && max_sugar_ok && min_price_ok
        && max_price_ok
}

/// The subsequence of `s` that satisfies the filter, in the order of `s`.
pub open spec fn spec_filtered(f: FilterView, s: Seq<DrinkView>) -> Seq<DrinkView> {
    s.filter(|d: DrinkView| spec_matches(f, d))
}

/// An empty filter restricts nothing: with no criterion present the
/// filtered sequence is the whole sequence, so a search without criteria
/// returns exactly what a plain listing returns.
pub proof fn lemma_empty_filter_search(f: FilterView, s: Seq<DrinkView>)
    requires
        f.brand is None,
        f.min_caffeine is None,
        f.max_caffeine is None,
        f.min_sugar is None,
        f.max_sugar is None,
        f.min_price_cents is None,
        f.max_price_cents is None,
    ensures
        spec_filtered(f, s) == s,
    decreases s.len(),
{
    reveal(Seq::<_>::filter);
    if s.len() == 0 {
        assert(spec_filtered(f, s) =~= s);
    } else {
        lemma_empty_filter_search(f, s.drop_last());
        lemma_empty_filter_matches_all(f, s.last());
        assert(spec_filtered(f, s) =~= s);
    }
}

/// A filter with no criterion present matches every drink.
pub proof fn lemma_empty_filter_matches_all(f: FilterView, d: DrinkView)
    requires
        f.brand is None,
        f.min_caffeine is None,
        f.max_caffeine is None,
        f.min_sugar is None,
        f.max_sugar is None,
        f.min_price_cents is None,
        f.max_price_cents is None,
    ensures
        spec_matches(f, d),
{
}

} // verus!
