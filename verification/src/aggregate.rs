use vstd::prelude::*;
use vstd::string::StrSliceExecFns;
use crate::models::{Drink, DrinkView};

verus! {

/// Lexicographic order on character sequences by code point: the order
/// in which brand summaries are returned. The empty sequence comes
/// first; otherwise the first differing position decides.
pub open spec fn str_lt(a: Seq<char>, b: Seq<char>) -> bool
    decreases a.len(),
{
    if b.len() == 0 {
        false
    } else if a.len() == 0 {
        true
    } else if a[0] != b[0] {
        (a[0] as int) < (b[0] as int)
    } else {
        str_lt(a.drop_first(), b.drop_first())
    }
}

/// Two character sequences are always ordered one way or the other, or
/// they are equal.
pub proof fn lemma_str_lt_trichotomy(a: Seq<char>, b: Seq<char>)
    ensures
        str_lt(a, b) || str_lt(b, a) || a == b,
    decreases a.len(),
{
    if a.len() == 0 && b.len() == 0 {
        assert(a =~= b);
    } else if a.len() > 0 && b.len() > 0 && a[0] == b[0] {
        lemma_str_lt_trichotomy(a.drop_first(), b.drop_first());
        if a.drop_first() == b.drop_first() {
            assert(a.drop_first().len() == a.len() - 1);
            assert(b.drop_first().len() == b.len() - 1);
            assert(a.drop_first().len() == b.drop_first().len());
            assert(a.len() == b.len());
            assert forall|i: int| 0 <= i < a.len() implies a[i] == b[i] by {
                if i > 0 {
                    assert(a[i] == a.drop_first()[i - 1]);
                    assert(b[i] == b.drop_first()[i - 1]);
                }
            }
            assert(a =~= b);
        }
    }
}

/// Lexicographic order is transitive.
pub proof fn lemma_str_lt_trans(a: Seq<char>, b: Seq<char>, c: Seq<char>)
    requires
        str_lt(a, b),
        str_lt(b, c),
    ensures
        str_lt(a, c),
    decreases a.len(),
{
    if a.len() > 0 && b.len() > 0 && c.len() > 0 && a[0] == b[0] && b[0] == c[0] {
        lemma_str_lt_trans(a.drop_first(), b.drop_first(), c.drop_first());
    }
}

/// Decides [`str_lt`] on concrete strings.
pub fn str_is_lt(a: &str, b: &str) -> (r: bool)
    ensures
        r == str_lt(a@, b@),
    decreases a@.len(),
{
    let alen = a.unicode_len();
    let blen = b.unicode_len();
    if blen == 0 {
        false
    } else if alen == 0 {
        true
    } else {
        let ca = a.get_char(0);
        let cb = b.get_char(0);
        if ca != cb {
            (ca as u32) < (cb as u32)
        } else {
            let ra = a.substring_char(1, alen);
            let rb = b.substring_char(1, blen);
            proof {
                assert(ra@ =~= a@.drop_first());
                assert(rb@ =~= b@.drop_first());
            }
            str_is_lt(ra, rb)
        }
    }
}

/// No character sequence orders before itself.
pub proof fn lemma_str_lt_irrefl(a: Seq<char>)
    ensures
        !str_lt(a, a),
    decreases a.len(),
{
    if a.len() > 0 {
        lemma_str_lt_irrefl(a.drop_first());
    }
}

/// How many rows of `s` carry brand `b`.
pub open spec fn brand_count(s: Seq<DrinkView>, b: Seq<char>) -> int
    decreases s.len(),
{
    if s.len() == 0 {
        0
    } else {
        brand_count(s.drop_last(), b) + if s.last().brand == b {
            1int
        } else {
            0int
        }
    }
}

/// The sum of `caffeine_content` over the rows of `s` with brand `b`.
pub open spec fn brand_caffeine_sum(s: Seq<DrinkView>, b: Seq<char>) -> int
    decreases s.len(),
{
    if s.len() == 0 {
        0
    } else {
        brand_caffeine_sum(s.drop_last(), b) + if s.last().brand == b {
            s.last().caffeine_content as int
        } else {
            0int
        }
    }
}

/// The sum of `sugar_content` over the rows of `s` with brand `b`.
pub open spec fn brand_sugar_sum(s: Seq<DrinkView>, b: Seq<char>) -> int
    decreases s.len(),
{
    if s.len() == 0 {
        0
    } else {
        brand_sugar_sum(s.drop_last(), b) + if s.last().brand == b {
            s.last().sugar_content as int
        } else {
            0int
        }
    }
}

/// The sum of `price_cents` over the rows of `s` with brand `b`.
pub open spec fn brand_price_sum(s: Seq<DrinkView>, b: Seq<char>) -> int
    decreases s.len(),
{
    if s.len() == 0 {
        0
    } else {
        brand_price_sum(s.drop_last(), b) + if s.last().brand == b {
            s.last().price_cents as int
        } else {
            0int
        }
    }
}

/// Every statistic is bounded by the number of rows times the field's
/// own range, so the running sums fit their machine integers.
pub proof fn lemma_stat_bounds(s: Seq<DrinkView>, b: Seq<char>)
    ensures
        0 <= brand_count(s, b) <= s.len(),
        -(s.len() * 0x8000_0000) <= brand_caffeine_sum(s, b) <= s.len() * 0x8000_0000,
        -(s.len() * 0x8000_0000) <= brand_sugar_sum(s, b) <= s.len() * 0x8000_0000,
        0 <= brand_price_sum(s, b) <= s.len() * 0xFFFF_FFFF_FFFF_FFFF,
    decreases s.len(),
{
    if s.len() > 0 {
        lemma_stat_bounds(s.drop_last(), b);
    }
}

/// Extending a prefix by one row shifts each statistic by exactly that
/// row's contribution: nothing if its brand differs, its field values if
/// it matches.
pub proof fn lemma_stats_extend(s: Seq<DrinkView>, i: int, b: Seq<char>)
    requires
        0 <= i < s.len(),
    ensures
        brand_count(s.take(i + 1), b) == brand_count(s.take(i), b) + if s[i].brand == b {
            1int
        } else {
            0int
        },
        brand_caffeine_sum(s.take(i + 1), b) == brand_caffeine_sum(s.take(i), b) + if s[i].brand
            == b {
            s[i].caffeine_content as int
        } else {
            0int
        },
        brand_sugar_sum(s.take(i + 1), b) == brand_sugar_sum(s.take(i), b) + if s[i].brand == b {
            s[i].sugar_content as int
        } else {
            0int
        },
        brand_price_sum(s.take(i + 1), b) == brand_price_sum(s.take(i), b) + if s[i].brand == b {
            s[i].price_cents as int
        } else {
            0int
        },
{
    assert(s.take(i + 1).drop_last() =~= s.take(i));
    assert(s.take(i + 1).last() == s[i]);
}

/// A brand no row carries has zero statistics.
pub proof fn lemma_stats_zero(s: Seq<DrinkView>, b: Seq<char>)
    requires
        forall|i: int| 0 <= i < s.len() ==> (#[trigger] s[i].brand) != b,
    ensures
        brand_count(s, b) == 0,
        brand_caffeine_sum(s, b) == 0,
        brand_sugar_sum(s, b) == 0,
        brand_price_sum(s, b) == 0,
    decreases s.len(),
{
    if s.len() > 0 {
        assert(s.drop_last() =~= s.take(s.len() - 1));
        assert(forall|i: int|
            0 <= i < s.drop_last().len() ==> (#[trigger] s.drop_last()[i].brand) != b);
        lemma_stats_zero(s.drop_last(), b);
    }
}

/// One aggregate row of the brand summary: how many drinks one brand
/// has, and the exact field sums over them. The arithmetic mean of a
/// field is its sum divided by `drink_count`; the division is left to
/// the presentation layer, so the summary itself stays exact.
pub struct BrandSummary {
    pub brand: String,
    pub drink_count: u64,
    pub caffeine_sum: i128,
    pub sugar_sum: i128,
    pub price_cents_sum: u128,
}

/// The mathematical value of a [`BrandSummary`].
pub ghost struct SummaryView {
    pub brand: Seq<char>,
    pub drink_count: u64,
    pub caffeine_sum: i128,
    pub sugar_sum: i128,
    pub price_cents_sum: u128,
}

impl View for BrandSummary {
    type V = SummaryView;

    open spec fn view(&self) -> SummaryView {
        SummaryView {
            brand: self.brand@,
            drink_count: self.drink_count,
            caffeine_sum: self.caffeine_sum,
            sugar_sum: self.sugar_sum,
            price_cents_sum: self.price_cents_sum,
        }
    }
}

/// The views of a summary list.
pub open spec fn summary_views(v: Seq<BrandSummary>) -> Seq<SummaryView> {
    v.map_values(|e: BrandSummary| e@)
}

/// Whether the summary entries are strictly ascending by brand.
pub open spec fn sorted_by_brand(out: Seq<SummaryView>) -> bool {
    forall|k: int, l: int| 0 <= k < l < out.len() ==> str_lt(out[k].brand, out[l].brand)
}

/// Whether one summary entry carries the exact statistics of its brand
/// over the rows `s`, and summarises at least one row.
pub open spec fn entry_ok(s: Seq<DrinkView>, e: SummaryView) -> bool {
    &&& e.drink_count > 0
    &&& e.drink_count == brand_count(s, e.brand)
    &&& e.caffeine_sum == brand_caffeine_sum(s, e.brand)
    &&& e.sugar_sum == brand_sugar_sum(s, e.brand)
    &&& e.price_cents_sum == brand_price_sum(s, e.brand)
}

/// What it means for `out` to summarise the rows `s`: every entry
/// carries its brand's exact count and sums and stands for at least one
/// row, the entries ascend strictly by brand, and every brand present
/// in `s` has an entry. Together these pin `out` completely.
pub open spec fn is_summary_of(s: Seq<DrinkView>, out: Seq<SummaryView>) -> bool {
    &&& forall|k: int| 0 <= k < out.len() ==> entry_ok(s, #[trigger] out[k])
    &&& sorted_by_brand(out)
    &&& forall|i: int|
        0 <= i < s.len() ==> exists|k: int|
            0 <= k < out.len() && out[k].brand == (#[trigger] s[i]).brand
}

/// The index at which `brand` belongs in a sorted summary list: the
/// index of its own entry if one exists, otherwise the index where an
/// entry for it would keep the list sorted.
fn find_slot(r: &Vec<BrandSummary>, brand: &String) -> (j: usize)
    requires
        sorted_by_brand(summary_views(r@)),
    ensures
        j <= r@.len(),
        forall|k: int| 0 <= k < j ==> str_lt(summary_views(r@)[k].brand, brand@),
        j < r@.len() ==> !str_lt(summary_views(r@)[j as int].brand, brand@),
{
    let m = r.len();
    let mut j: usize = 0;
    while j < m
        invariant
            m == r@.len(),
            j <= m,
            forall|k: int| 0 <= k < j ==> str_lt(summary_views(r@)[k].brand, brand@),
        decreases m - j,
    {
        if !str_is_lt(r[j].brand.as_str(), brand.as_str()) {
            return j;
        }
        j = j + 1;
    }
    j
}

/// Groups the given rows by brand and returns one summary entry per
/// distinct brand, ascending by brand, each carrying the exact count
/// and field sums of its group. No rows yield an empty summary, and no
/// entry ever has a zero count.
pub fn summarize(rows: &Vec<Drink>) -> (r: Vec<BrandSummary>)
    ensures
        is_summary_of(rows@.map_values(|d: Drink| d@), summary_views(r@)),
{
    let ghost s = rows@.map_values(|d: Drink| d@);
    let n = rows.len();
    let mut r: Vec<BrandSummary> = Vec::new();
    let mut i: usize = 0;
    proof {
        assert(s.take(0) =~= Seq::<DrinkView>::empty());
        assert(summary_views(r@) =~= Seq::<SummaryView>::empty());
    }
    while i < n
        invariant
            n == rows@.len(),
            i <= n,
            s == rows@.map_values(|d: Drink| d@),
            s.len() == n,
            is_summary_of(s.take(i as int), summary_views(r@)),
        decreases n - i,
    {
        let ghost prefix = s.take(i as int);
        let ghost out_old = summary_views(r@);
        let row = &rows[i];
        proof {
            assert(row@ == s[i as int]);
        }
        let j = find_slot(&r, &row.brand);
        let is_match = j < r.len() && r[j].brand == row.brand;
        if is_match {
            proof {
                lemma_stat_bounds(prefix, out_old[j as int].brand);
                assert(prefix.len() == i);
            }
            let bumped = BrandSummary {
                brand: r[j].brand.clone(),
                drink_count: r[j].drink_count + 1,
                caffeine_sum: r[j].caffeine_sum + (row.caffeine_content as i128),
                sugar_sum: r[j].sugar_sum + (row.sugar_content as i128),
                price_cents_sum: r[j].price_cents_sum + (row.price_cents as u128),
            };
            r[j] = bumped;
            proof {
                let out_new = summary_views(r@);
                assert(out_new =~= out_old.update(j as int, bumped@));
                assert(bumped@.brand == s[i as int].brand);
                assert forall|k: int| 0 <= k < out_new.len() implies entry_ok(
                    s.take(i + 1),
                    #[trigger] out_new[k],
                ) by {
                    lemma_stats_extend(s, i as int, out_new[k].brand);
                    if k != j {
                        assert(out_new[k] == out_old[k]);
                        if out_old[k].brand == s[i as int].brand {
                            if k < j {
                                assert(str_lt(out_old[k].brand, out_old[j as int].brand));
                            } else {
                                assert(str_lt(out_old[j as int].brand, out_old[k].brand));
                            }
                            lemma_str_lt_irrefl(out_old[k].brand);
                        }
                    }
                }
                assert forall|k: int, l: int| 0 <= k < l < out_new.len() implies str_lt(
                    out_new[k].brand,
                    out_new[l].brand,
                ) by {
                    assert(out_new[k].brand == out_old[k].brand);
                    assert(out_new[l].brand == out_old[l].brand);
                }
                assert forall|x: int| 0 <= x < s.take(i + 1).len() implies exists|k: int|
                    0 <= k < out_new.len() && out_new[k].brand == (#[trigger] s.take(
                        i + 1,
                    )[x]).brand by {
                    if x < i {
                        assert(s.take(i + 1)[x] == prefix[x]);
                        let k = choose|k: int|
                            0 <= k < out_old.len() && out_old[k].brand == prefix[x].brand;
                        assert(out_new[k].brand == s.take(i + 1)[x].brand);
                    } else {
                        assert(out_new[j as int].brand == s.take(i + 1)[x].brand);
                    }
                }
            }
        } else {
            proof {
                // No entry carries this brand: entries before the slot
                // order strictly below it, entries at or after it
                // strictly above.
                assert forall|k: int| 0 <= k < out_old.len() implies out_old[k].brand != s[
                    i as int
                ].brand by {
                    lemma_str_lt_irrefl(out_old[k].brand);
                    if k < j {
                        assert(str_lt(out_old[k].brand, row.brand@));
                    } else if k == j {
                        lemma_str_lt_trichotomy(out_old[k].brand, row.brand@);
                    } else {
                        lemma_str_lt_trichotomy(out_old[j as int].brand, row.brand@);
                        assert(str_lt(out_old[j as int].brand, out_old[k].brand));
                        if out_old[k].brand == row.brand@ {
                            assert(str_lt(row.brand@, out_old[j as int].brand));
                            lemma_str_lt_trans(
                                row.brand@,
                                out_old[j as int].brand,
                                out_old[k].brand,
                            );
                        }
                    }
                }
                assert forall|x: int| 0 <= x < i implies (#[trigger] prefix[x]).brand != s[
                    i as int
                ].brand by {
                    if prefix[x].brand == s[i as int].brand {
                        let k = choose|k: int|
                            0 <= k < out_old.len() && out_old[k].brand == prefix[x].brand;
                        assert(out_old[k].brand == s[i as int].brand);
                    }
                }
                lemma_stats_zero(prefix, s[i as int].brand);
                lemma_stats_extend(s, i as int, s[i as int].brand);
            }
            let fresh = BrandSummary {
                brand: row.brand.clone(),
                drink_count: 1,
                caffeine_sum: row.caffeine_content as i128,
                sugar_sum: row.sugar_content as i128,
                price_cents_sum: row.price_cents as u128,
            };
            r.insert(j, fresh);
            proof {
                let out_new = summary_views(r@);
                assert(out_new =~= out_old.insert(j as int, fresh@));
                assert(fresh@.brand == s[i as int].brand);
                assert forall|k: int| 0 <= k < out_new.len() implies entry_ok(
                    s.take(i + 1),
                    #[trigger] out_new[k],
                ) by {
                    lemma_stats_extend(s, i as int, out_new[k].brand);
                    if k < j {
                        assert(out_new[k] == out_old[k]);
                    } else if k > j {
                        assert(out_new[k] == out_old[k - 1]);
                    }
                }
                assert forall|k: int, l: int| 0 <= k < l < out_new.len() implies str_lt(
                    out_new[k].brand,
                    out_new[l].brand,
                ) by {
                    lemma_str_lt_trichotomy(out_old[j as int].brand, row.brand@);
                    if k < j && l == j {
                        assert(str_lt(out_old[k].brand, row.brand@));
                    } else if k == j && l > j {
                        assert(out_new[l] == out_old[l - 1]);
                        if l - 1 > j {
                            assert(str_lt(out_old[j as int].brand, out_old[l - 1].brand));
                            lemma_str_lt_trans(
                                row.brand@,
                                out_old[j as int].brand,
                                out_old[l - 1].brand,
                            );
                        }
                    } else if k < j && l > j {
                        assert(out_new[k] == out_old[k]);
                        assert(out_new[l] == out_old[l - 1]);
                        if l - 1 == k {
                            assert(str_lt(out_old[k].brand, row.brand@));
                            assert(str_lt(row.brand@, out_old[j as int].brand));
                        }
                    } else if k > j {
                        assert(out_new[k] == out_old[k - 1]);
                        assert(out_new[l] == out_old[l - 1]);
                    }
                }
                assert forall|x: int| 0 <= x < s.take(i + 1).len() implies exists|k: int|
                    0 <= k < out_new.len() && out_new[k].brand == (#[trigger] s.take(
                        i + 1,
                    )[x]).brand by {
                    if x < i {
                        assert(s.take(i + 1)[x] == prefix[x]);
                        let k = choose|k: int|
                            0 <= k < out_old.len() && out_old[k].brand == prefix[x].brand;
                        let k2: int = if k < j {
                            k
                        } else {
                            k + 1
                        };
                        assert(out_new[k2].brand == s.take(i + 1)[x].brand);
                    } else {
                        assert(out_new[j as int].brand == s.take(i + 1)[x].brand);
                    }
                }
            }
        }
        i = i + 1;
    }
    proof {
        assert(s.take(n as int) =~= s);
    }
    r
}

} // verus!
