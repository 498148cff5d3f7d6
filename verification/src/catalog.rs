//! The mirrored catalog: products and clients.

use vstd::prelude::*;
use crate::ordered::Keyed;
use crate::table::{
    check_ids_distinct, check_keys_distinct, ids_distinct, keys_distinct, RowId, UniqueKey,
};
use crate::text::{contains_folded, folded, folded_chars, occurs};

verus! {

/// A product of the catalog. Amounts and quantities are whole numbers of the
/// smallest unit the terminal accounts in.
#[derive(Debug, PartialEq, Eq)]
pub struct Product {
    pub id: i64,
    pub code: String,
    pub name: String,
    pub price: i64,
    pub cost: Option<i64>,
    pub category_id: Option<i64>,
    pub brand_id: Option<i64>,
    pub unit_id: Option<i64>,
    pub sale_unit_id: Option<i64>,
    pub tax_method: Option<String>,
    pub tax_percent: Option<i64>,
    pub discount: Option<i64>,
    pub discount_method: Option<String>,
    pub image: Option<String>,
    pub is_service: bool,
    pub stock_qty: i64,
    pub min_stock: Option<i64>,
    pub updated_at: String,
}

/// A client of the catalog.
#[derive(Debug, PartialEq, Eq)]
pub struct Client {
    pub id: i64,
    pub name: String,
    pub phone: Option<String>,
    pub email: Option<String>,
    pub address: Option<String>,
    pub tax_number: Option<String>,
    pub updated_at: String,
}

impl Clone for Product {
    fn clone(&self) -> (r: Self)
        ensures
            r == *self,
    {
        Product {
            id: self.id,
            code: self.code.clone(),
            name: self.name.clone(),
            price: self.price,
            cost: self.cost,
            category_id: self.category_id,
            brand_id: self.brand_id,
            unit_id: self.unit_id,
            sale_unit_id: self.sale_unit_id,
            tax_method: self.tax_method.clone(),
            tax_percent: self.tax_percent,
            discount: self.discount,
            discount_method: self.discount_method.clone(),
            image: self.image.clone(),
            is_service: self.is_service,
            stock_qty: self.stock_qty,
            min_stock: self.min_stock,
            updated_at: self.updated_at.clone(),
        }
    }
}

impl Clone for Client {
    fn clone(&self) -> (r: Self)
        ensures
            r == *self,
    {
        Client {
            id: self.id,
            name: self.name.clone(),
            phone: self.phone.clone(),
            email: self.email.clone(),
            address: self.address.clone(),
            tax_number: self.tax_number.clone(),
            updated_at: self.updated_at.clone(),
        }
    }
}

impl Keyed for Product {
    open spec fn sort_key(&self) -> Seq<char> {
        self.name@
    }

    fn key(&self) -> (k: &str) {
        self.name.as_str()
    }
}

impl RowId for Product {
    open spec fn row_id(&self) -> int {
        self.id as int
    }

    fn id_number(&self) -> (n: i64) {
        self.id
    }
}

impl UniqueKey for Product {
    open spec fn unique_key(&self) -> Seq<char> {
        self.code@
    }

    fn unique_text(&self) -> (k: &str) {
        self.code.as_str()
    }
}

impl Keyed for Client {
    open spec fn sort_key(&self) -> Seq<char> {
        self.name@
    }

    fn key(&self) -> (k: &str) {
        self.name.as_str()
    }
}

impl RowId for Client {
    open spec fn row_id(&self) -> int {
        self.id as int
    }

    fn id_number(&self) -> (n: i64) {
        self.id
    }
}

/// No price is negative.
pub open spec fn prices_valid(s: Seq<Product>) -> bool {
    forall|i: int| 0 <= i < s.len() ==> (#[trigger] s[i]).price >= 0
}

/// What a set of products must satisfy to be stored: no two share an id, no
/// two share a code, and no price is negative.
pub open spec fn products_valid(s: Seq<Product>) -> bool {
    &&& ids_distinct(s)
    &&& keys_distinct(s)
    &&& prices_valid(s)
}

/// What a set of clients must satisfy to be stored: no two share an id.
pub open spec fn clients_valid(s: Seq<Client>) -> bool {
    ids_distinct(s)
}

/// Decides `products_valid`.
pub fn check_products(products: &Vec<Product>) -> (ok: bool)
    ensures
        ok == products_valid(products@),
{
    let mut i: usize = 0;
    while i < products.len()
        invariant
            0 <= i <= products.len(),
            forall|k: int| 0 <= k < i ==> (#[trigger] products[k]).price >= 0,
        decreases products.len() - i,
    {
        if products[i].price < 0 {
            return false;
        }
        i += 1;
    }
    check_ids_distinct(products) && check_keys_distinct(products)
}

/// Decides `clients_valid`.
pub fn check_clients(clients: &Vec<Client>) -> (ok: bool)
    ensures
        ok == clients_valid(clients@),
{
    check_ids_distinct(clients)
}

/// A product answers a search when its name or its code contains the query,
/// the case of ASCII letters ignored.
pub open spec fn product_matches(p: Product, query: Seq<char>) -> bool {
    contains_folded(p.name@, query) || contains_folded(p.code@, query)
}

/// The products of `s` that answer `query`, in the order they have in `s`.
pub open spec fn matching_products(s: Seq<Product>, query: Seq<char>) -> Seq<Product> {
    s.filter(|p: Product| product_matches(p, query))
}

/// Copies the products that answer `query`.
pub fn select_matching(products: &Vec<Product>, query: &str) -> (r: Vec<Product>)
    ensures
        r@ == matching_products(products@, query@),
{
    let needle = folded_chars(query);
    let mut out: Vec<Product> = Vec::new();
    let mut i: usize = 0;
    proof {
        assert(products@.take(0) =~= Seq::<Product>::empty());
    }
    while i < products.len()
        invariant
            0 <= i <= products.len(),
            needle@ == folded(query@),
            out@ == matching_products(products@.take(i as int), query@),
        decreases products.len() - i,
    {
        let p = &products[i];
        let hit = occurs(&needle, &folded_chars(p.name.as_str())) || occurs(
            &needle,
            &folded_chars(p.code.as_str()),
        );
        proof {
            let pred = |p: Product| product_matches(p, query@);
            assert(products@.take(i + 1) =~= products@.take(i as int).push(products@[i as int]));
            products@.take(i as int).lemma_filter_push(products@[i as int], pred);
        }
        if hit {
            out.push(p.clone());
        }
        i += 1;
    }
    proof {
        assert(products@.take(products@.len() as int) =~= products@);
    }
    out
}

} // verus!
