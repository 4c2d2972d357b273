use vstd::prelude::*;

verus! {

/// One catalog entry as the store keeps it.
///
/// `price_cents` holds the price as a whole number of cents, and
/// `created_at` is a creation stamp assigned by the store exactly once;
/// the presentation layer may render both differently (a decimal price,
/// a calendar timestamp), but the catalog's rules only ever compare them,
/// so plain integers carry everything the logic reads.
#[derive(Debug)]
pub struct Drink {
    pub id: u128,
    pub name: String,
    pub brand: String,
    pub caffeine_content: i32,
    pub sugar_content: i32,
    pub price_cents: u64,
    pub created_at: u64,
}

/// The mathematical value of a [`Drink`]: the same fields with the
/// strings abstracted to character sequences.
pub ghost struct DrinkView {
    pub id: u128,
    pub name: Seq<char>,
    pub brand: Seq<char>,
    pub caffeine_content: i32,
    pub sugar_content: i32,
    pub price_cents: u64,
    pub created_at: u64,
}

impl View for Drink {
    type V = DrinkView;

    open spec fn view(&self) -> DrinkView {
        DrinkView {
            id: self.id,
            name: self.name@,
            brand: self.brand@,
            caffeine_content: self.caffeine_content,
            sugar_content: self.sugar_content,
            price_cents: self.price_cents,
            created_at: self.created_at,
        }
    }
}

impl Clone for Drink {
    fn clone(&self) -> (r: Drink)
        ensures
            r@ == self@,
    {
        Drink {
            id: self.id,
            name: self.name.clone(),
            brand: self.brand.clone(),
            caffeine_content: self.caffeine_content,
            sugar_content: self.sugar_content,
            price_cents: self.price_cents,
            created_at: self.created_at,
        }
    }
}

/// The payload that creates a drink: every descriptive field is required;
/// `id` and `created_at` are assigned by the store, never supplied.
pub struct CreateDrink {
    pub name: String,
    pub brand: String,
    pub caffeine_content: i32,
    pub sugar_content: i32,
    pub price_cents: u64,
}

/// The mathematical value of a [`CreateDrink`].
pub ghost struct CreateView {
    pub name: Seq<char>,
    pub brand: Seq<char>,
    pub caffeine_content: i32,
    pub sugar_content: i32,
    pub price_cents: u64,
}

impl View for CreateDrink {
    type V = CreateView;

    open spec fn view(&self) -> CreateView {
        CreateView {
            name: self.name@,
            brand: self.brand@,
            caffeine_content: self.caffeine_content,
            sugar_content: self.sugar_content,
            price_cents: self.price_cents,
        }
    }
}

/// The payload of a partial update: every field is independently optional.
/// A present field overwrites the stored value; an absent field keeps it.
/// `id` and `created_at` can never be updated.
pub struct UpdateDrink {
    pub name: Option<String>,
    pub brand: Option<String>,
    pub caffeine_content: Option<i32>,
    pub sugar_content: Option<i32>,
    pub price_cents: Option<u64>,
}

/// The mathematical value of an [`UpdateDrink`].
pub ghost struct UpdateView {
    pub name: Option<Seq<char>>,
    pub brand: Option<Seq<char>>,
    pub caffeine_content: Option<i32>,
    pub sugar_content: Option<i32>,
    pub price_cents: Option<u64>,
}

impl View for UpdateDrink {
    type V = UpdateView;

    open spec fn view(&self) -> UpdateView {
        UpdateView {
            name: match self.name {
                Some(ref n) => Some(n@),
                None => None,
            },
            brand: match self.brand {
                Some(ref b) => Some(b@),
                None => None,
            },
            caffeine_content: self.caffeine_content,
            sugar_content: self.sugar_content,
            price_cents: self.price_cents,
        }
    }
}

/// The merge rule of a partial update: fields present in `u` overwrite,
/// fields absent in `u` retain the current value, and `id` and
/// `created_at` always come from the current row.
pub open spec fn spec_merge(d: DrinkView, u: UpdateView) -> DrinkView {
    DrinkView {
        id: d.id,
        name: match u.name {
            Some(n) => n,
            None => d.name,
        },
        brand: match u.brand {
            Some(b) => b,
            None => d.brand,
        },
        caffeine_content: match u.caffeine_content {
            Some(c) => c,
            None => d.caffeine_content,
        },
        sugar_content: match u.sugar_content {
            Some(s) => s,
            None => d.sugar_content,
        },
        price_cents: match u.price_cents {
            Some(p) => p,
            None => d.price_cents,
        },
        created_at: d.created_at,
    }
}

/// Merges a partial update over the current row, field by field, exactly
/// as [`spec_merge`] states.
pub fn merge_update(current: &Drink, updates: &UpdateDrink) -> (r: Drink)
    ensures
        r@ == spec_merge(current@, updates@),
{
    Drink {
        id: current.id,
        name: match &updates.name {
            Some(n) => n.clone(),
            None => current.name.clone(),
        },
        brand: match &updates.brand {
            Some(b) => b.clone(),
            None => current.brand.clone(),
        },
        caffeine_content: match updates.caffeine_content {
            Some(c) => c,
            None => current.caffeine_content,
        },
        sugar_content: match updates.sugar_content {
            Some(s) => s,
            None => current.sugar_content,
        },
        price_cents: match updates.price_cents {
            Some(p) => p,
            None => current.price_cents,
        },
        created_at: current.created_at,
    }
}

/// An update with no field present merges to the row itself: a no-op
/// update returns the stored state unchanged.
pub proof fn lemma_update_noop(d: DrinkView, u: UpdateView)
    requires
        u.name is None,
        u.brand is None,
        u.caffeine_content is None,
        u.sugar_content is None,
        u.price_cents is None,
    ensures
        spec_merge(d, u) == d,
{
}

/// An update that supplies only `price_cents` changes only `price_cents`;
/// every other field of the merged row equals its pre-update value.
pub proof fn lemma_partial_update_price(d: DrinkView, u: UpdateView, p: u64)
    requires
        u.name is None,
        u.brand is None,
        u.caffeine_content is None,
        u.sugar_content is None,
        u.price_cents == Some(p),
    ensures
        spec_merge(d, u).price_cents == p,
        spec_merge(d, u).id == d.id,
        spec_merge(d, u).name == d.name,
        spec_merge(d, u).brand == d.brand,
        spec_merge(d, u).caffeine_content == d.caffeine_content,
        spec_merge(d, u).sugar_content == d.sugar_content,
        spec_merge(d, u).created_at == d.created_at,
{
}

/// The failure taxonomy of the catalog: a missing row, a malformed
/// payload, or a fault of the backing store itself.
#[derive(Clone, Copy, PartialEq, Eq, Structural, Debug)]
pub enum DrinkError {
    NotFound,
    ValidationError,
    StorageError,
}

} // verus!
