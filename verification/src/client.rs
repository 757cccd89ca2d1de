//! The provider's ticket API: response envelopes, catalog resolution and the
//! plans for each remote call. The transport itself (HTTP) lives outside the
//! library; everything here is a pure function of plain values, so the
//! decisions of the submit pipeline are verified end to end.

use crate::signer::{
    spec_authorization, spec_hex_lower, sha256_of, sha256_hex, view_pairs, view_pairs_chars,
    AliyunSigner,
};
use crate::text::{
    contains_str, contains_str_folded, decimal_string, spec_contains, spec_decimal_chars,
    spec_lower_chars,
};
use vstd::prelude::*;
use vstd::slice::slice_index_get;
use vstd::string::{StringExecFns, StrSliceExecFns};
use vstd::utf8::encode_utf8;

verus! {

// ---------------------------------------------------------------------------
// Wire data
// ---------------------------------------------------------------------------

/// The provider's response envelope. `success` is the authoritative outcome
/// flag; the presence of `data` is not itself evidence of success.
pub struct Envelope<T> {
    pub code: Option<i64>,
    pub message: Option<String>,
    pub success: Option<bool>,
    pub data: Option<T>,
    pub request_id: Option<String>,
}

/// One product of the provider's catalog.
pub struct Product {
    pub product_id: Option<u64>,
    pub product_name: Option<String>,
}

/// One directory of the product catalog.
pub struct ProductDirectory {
    pub directory_id: Option<u64>,
    pub directory_name: Option<String>,
    pub product_list: Option<Vec<Product>>,
}

/// One ticket category.
pub struct Category {
    pub category_id: Option<u64>,
    pub category_name: Option<String>,
}

/// A product seen while scanning the catalog, for the diagnostic dump when no
/// product matches.
#[derive(Debug)]
pub struct ScannedProduct {
    pub directory_name: String,
    pub product_name: String,
    pub product_id: u64,
}

/// Why a call into the provider's API, or the resolution around it, failed.
#[derive(Debug)]
pub enum ApiError {
    /// The signing step rejected the key material.
    Signing,
    /// The HTTP transport failed before a response arrived.
    Transport(String),
    /// The response status was not 2xx; carries status and body.
    HttpStatus(u16, String),
    /// The envelope's `success` flag was not `true`; carries the provider's
    /// message verbatim.
    Upstream(String),
    /// The envelope reported success but carried no data.
    MissingData,
    /// No product matched the markers; carries every scanned product.
    ProductNotFound(Vec<ScannedProduct>),
    /// The matched product carried no identifier.
    ProductIdMissing,
    /// The category listing was empty.
    CategoriesEmpty,
    /// The chosen category carried no identifier.
    CategoryIdMissing,
}

// ---------------------------------------------------------------------------
// Envelope interpretation
// ---------------------------------------------------------------------------

impl<T> Envelope<T> {
    /// The data of a successful envelope: `Ok` exactly when `success` is
    /// `true` and data is present; otherwise the upstream message, or a
    /// missing-data error.
    pub fn into_data(self) -> (r: Result<T, ApiError>)
        ensures
            (self.success == Some(true) && self.data is Some) <==> r is Ok,
            self.success == Some(true) && self.data is Some ==> r == Ok::<T, ApiError>(
                self.data->Some_0,
            ),
            self.success != Some(true) ==> (r matches Err(ApiError::Upstream(m)) && m@ == (
            match self.message {
                Some(s) => s@,
                None => Seq::<char>::empty(),
            })),
            self.success == Some(true) && self.data is None ==> r == Err::<T, ApiError>(
                ApiError::MissingData,
            ),
    {
        let success = match self.success {
            Some(true) => true,
            _ => false,
        };
        if !success {
            let m = match self.message {
                Some(s) => s,
                None => String::new(),
            };
            return Err(ApiError::Upstream(m));
        }
        match self.data {
            Some(d) => Ok(d),
            None => Err(ApiError::MissingData),
        }
    }
}

/// Whether an HTTP status is a success status.
pub fn http_status_ok(status: u16) -> (r: bool)
    ensures
        r == (200 <= status < 300),
{
    200 <= status && status < 300
}

/// The body of a transport-level successful response: `Ok` exactly on a 2xx
/// status, otherwise the status and body as an error.
pub fn check_transport(status: u16, body: String) -> (r: Result<String, ApiError>)
    ensures
        (200 <= status < 300) ==> (r matches Ok(b) && b@ == body@),
        !(200 <= status < 300) ==> (r matches Err(ApiError::HttpStatus(s, b)) && s == status && b@
            == body@),
{
    if http_status_ok(status) {
        Ok(body)
    } else {
        Err(ApiError::HttpStatus(status, body))
    }
}

// ---------------------------------------------------------------------------
// Product resolution
// ---------------------------------------------------------------------------

/// Whether a product name marks the wanted product: it contains the
/// domain-specific marker, or the English marker up to ASCII case.
pub open spec fn spec_product_name_matches(name: Seq<char>) -> bool {
    spec_contains(name, "轻量"@) || spec_contains(spec_lower_chars(name), "simple application"@)
}

/// Whether a product matches: an unnamed product never does.
pub open spec fn spec_product_matches(p: Product) -> bool {
    match p.product_name {
        Some(n) => spec_product_name_matches(n@),
        None => false,
    }
}

/// The products of one directory, in listing order.
pub open spec fn spec_dir_products(d: ProductDirectory) -> Seq<Product> {
    match d.product_list {
        Some(l) => l@,
        None => seq![],
    }
}

/// Every product of every directory, in listing order.
pub open spec fn spec_all_products(dirs: Seq<ProductDirectory>) -> Seq<Product>
    decreases dirs.len(),
{
    if dirs.len() == 0 {
        seq![]
    } else {
        spec_all_products(dirs.drop_last()) + spec_dir_products(dirs.last())
    }
}

/// The first matching product, if any.
pub open spec fn spec_first_product_match(ps: Seq<Product>) -> Option<Product>
    decreases ps.len(),
{
    if ps.len() == 0 {
        None
    } else if spec_product_matches(ps[0]) {
        Some(ps[0])
    } else {
        spec_first_product_match(ps.drop_first())
    }
}

proof fn lemma_first_product_match_concat(a: Seq<Product>, b: Seq<Product>)
    ensures
        spec_first_product_match(a + b) == (if spec_first_product_match(a) is Some {
            spec_first_product_match(a)
        } else {
            spec_first_product_match(b)
        }),
    decreases a.len(),
{
    if a.len() == 0 {
        assert(a + b =~= b);
    } else {
        assert((a + b)[0] == a[0]);
        assert((a + b).drop_first() =~= a.drop_first() + b);
        lemma_first_product_match_concat(a.drop_first(), b);
    }
}

/// Whether a product's name matches the markers.
fn product_matches(p: &Product) -> (r: bool)
    ensures
        r == spec_product_matches(*p),
{
    match &p.product_name {
        Some(n) => contains_str(n.as_str(), "轻量") || contains_str_folded(
            n.as_str(),
            "simple application",
        ),
        None => false,
    }
}

/// The first matching product of one listing.
fn first_match_in(products: &Vec<Product>) -> (r: Option<usize>)
    ensures
        match r {
            Some(i) => i < products@.len() && spec_first_product_match(products@) == Some(
                products@[i as int],
            ),
            None => spec_first_product_match(products@) is None,
        },
{
    let n = products.len();
    proof {
        assert(products@.skip(0) =~= products@);
    }
    let mut i: usize = 0;
    while i < n
        invariant
            n == products@.len(),
            0 <= i <= n,
            spec_first_product_match(products@) == spec_first_product_match(
                products@.skip(i as int),
            ),
        decreases n - i,
    {
        let p = slice_index_get(products.as_slice(), i);
        proof {
            assert(products@.skip(i as int)[0] == products@[i as int]);
            assert(products@.skip(i as int).drop_first() =~= products@.skip(i + 1));
        }
        if product_matches(p) {
            return Some(i);
        }
        i = i + 1;
    }
    proof {
        assert(products@.skip(n as int).len() == 0);
    }
    None
}

/// The scan listing of the whole catalog: directory name, product name and
/// identifier of every product, with the original's placeholders where a
/// field is absent.
pub open spec fn spec_scanned(dirs: Seq<ProductDirectory>) -> Seq<(Seq<char>, Seq<char>, u64)>
    decreases dirs.len(),
{
    if dirs.len() == 0 {
        seq![]
    } else {
        spec_scanned(dirs.drop_last()) + spec_scanned_dir(dirs.last())
    }
}

/// The scan listing of one directory.
pub open spec fn spec_scanned_dir(d: ProductDirectory) -> Seq<(Seq<char>, Seq<char>, u64)> {
    spec_dir_products(d).map_values(
        |p: Product|
            (
                match d.directory_name {
                    Some(n) => n@,
                    None => "未知"@,
                },
                match p.product_name {
                    Some(n) => n@,
                    None => "未知"@,
                },
                match p.product_id {
                    Some(id) => id,
                    None => 0u64,
                },
            ),
    )
}

/// The view of an exec scan listing.
pub open spec fn view_scanned(l: Seq<ScannedProduct>) -> Seq<(Seq<char>, Seq<char>, u64)> {
    l.map_values(|s: ScannedProduct| (s.directory_name@, s.product_name@, s.product_id))
}

/// The scan listing of one directory, built for the diagnostic dump.
fn scan_dir(d: &ProductDirectory, out: &mut Vec<ScannedProduct>)
    ensures
        view_scanned(final(out)@) == view_scanned(old(out)@) + spec_scanned_dir(*d),
{
    let dir_name: &str = match &d.directory_name {
        Some(n) => n.as_str(),
        None => "未知",
    };
    match &d.product_list {
        Some(products) => {
            proof {
                assert(spec_dir_products(*d) == products@);
                assert(spec_scanned_dir(*d).len() == products@.len());
                assert(view_scanned(out@) + spec_scanned_dir(*d).subrange(0, 0) =~= view_scanned(
                    out@,
                ));
            }
            let n = products.len();
            let mut i: usize = 0;
            while i < n
                invariant
                    n == products@.len(),
                    0 <= i <= n,
                    spec_dir_products(*d) == products@,
                    spec_scanned_dir(*d).len() == n,
                    dir_name@ == (match d.directory_name {
                        Some(nm) => nm@,
                        None => "未知"@,
                    }),
                    view_scanned(out@) == view_scanned(old(out)@) + spec_scanned_dir(
                        *d,
                    ).subrange(0, i as int),
                decreases n - i,
            {
                let p = slice_index_get(products.as_slice(), i);
                let product_name: String = match &p.product_name {
                    Some(n) => n.clone(),
                    None => String::from_str("未知"),
                };
                let product_id: u64 = match p.product_id {
                    Some(id) => id,
                    None => 0,
                };
                let entry = ScannedProduct {
                    directory_name: String::from_str(dir_name),
                    product_name,
                    product_id,
                };
                let ghost ev = (entry.directory_name@, entry.product_name@, entry.product_id);
                out.push(entry);
                proof {
                    assert(ev == spec_scanned_dir(*d)[i as int]);
                    assert(view_scanned(out@) =~= (view_scanned(old(out)@) + spec_scanned_dir(
                        *d,
                    ).subrange(0, i as int)).push(ev));
                    assert(spec_scanned_dir(*d).subrange(0, i + 1) =~= spec_scanned_dir(
                        *d,
                    ).subrange(0, i as int).push(ev));
                    assert(view_scanned(out@) =~= view_scanned(old(out)@) + spec_scanned_dir(
                        *d,
                    ).subrange(0, i + 1));
                }
                i = i + 1;
            }
            proof {
                assert(spec_scanned_dir(*d).subrange(0, n as int) =~= spec_scanned_dir(*d));
            }
        },
        None => {
            proof {
                assert(view_scanned(out@) =~= view_scanned(old(out)@) + spec_scanned_dir(*d));
            }
        },
    }
}

/// Resolves the product: the identifier of the first product, scanning the
/// directories in listing order, whose name holds one of the markers. Fails
/// with the full scan listing when nothing matches, and with a missing-id
/// error when the matched product carries no identifier.
pub fn resolve_product(dirs: &Vec<ProductDirectory>) -> (r: Result<u64, ApiError>)
    ensures
        ({
            match spec_first_product_match(spec_all_products(dirs@)) {
                Some(p) => {
                    &&& (p.product_id is Some ==> r == Ok::<u64, ApiError>(p.product_id->Some_0))
                    &&& (p.product_id is None ==> r == Err::<u64, ApiError>(
                        ApiError::ProductIdMissing,
                    ))
                },
                None => r matches Err(ApiError::ProductNotFound(l)) && view_scanned(l@)
                    == spec_scanned(dirs@),
            }
        }),
{
    let n = dirs.len();
    let mut i: usize = 0;
    while i < n
        invariant
            n == dirs@.len(),
            0 <= i <= n,
            spec_first_product_match(spec_all_products(dirs@.subrange(0, i as int))) is None,
        decreases n - i,
    {
        let d = slice_index_get(dirs.as_slice(), i);
        let ghost pre = spec_all_products(dirs@.subrange(0, i as int));
        proof {
            assert(dirs@.subrange(0, i + 1).drop_last() =~= dirs@.subrange(0, i as int));
            assert(dirs@.subrange(0, i + 1).last() == dirs@[i as int]);
            lemma_first_product_match_concat(pre, spec_dir_products(dirs@[i as int]));
        }
        match &d.product_list {
            Some(products) => {
                match first_match_in(products) {
                    Some(j) => {
                        let ghost all = spec_all_products(dirs@);
                        proof {
                            lemma_all_products_extend(dirs@, i as int);
                            lemma_first_product_match_concat(
                                spec_all_products(dirs@.subrange(0, i + 1)),
                                spec_all_products_rest(dirs@, i + 1),
                            );
                        }
                        let p = slice_index_get(products.as_slice(), j);
                        match p.product_id {
                            Some(id) => {
                                return Ok(id);
                            },
                            None => {
                                return Err(ApiError::ProductIdMissing);
                            },
                        }
                    },
                    None => {},
                }
            },
            None => {},
        }
        i = i + 1;
    }
    proof {
        assert(dirs@.subrange(0, n as int) =~= dirs@);
    }
    // Nothing matched: dump every scanned product for the operator.
    let mut listing: Vec<ScannedProduct> = Vec::new();
    let mut k: usize = 0;
    while k < n
        invariant
            n == dirs@.len(),
            0 <= k <= n,
            view_scanned(listing@) == spec_scanned(dirs@.subrange(0, k as int)),
        decreases n - k,
    {
        let d = slice_index_get(dirs.as_slice(), k);
        proof {
            assert(view_scanned(listing@) + spec_scanned_dir(dirs@[k as int]) == spec_scanned(
                dirs@.subrange(0, k as int),
            ) + spec_scanned_dir(dirs@[k as int]));
            assert(dirs@.subrange(0, k + 1).drop_last() =~= dirs@.subrange(0, k as int));
            assert(dirs@.subrange(0, k + 1).last() == dirs@[k as int]);
        }
        scan_dir(d, &mut listing);
        k = k + 1;
    }
    proof {
        assert(dirs@.subrange(0, n as int) =~= dirs@);
    }
    Err(ApiError::ProductNotFound(listing))
}

// ---------------------------------------------------------------------------
// Category resolution
// ---------------------------------------------------------------------------

/// The ordered keyword list for category matching; earlier keywords win.
pub open spec fn spec_keyword(i: int) -> Seq<char> {
    if i == 0 {
        "带宽"@
    } else if i == 1 {
        "网络"@
    } else if i == 2 {
        "限速"@
    } else if i == 3 {
        "bandwidth"@
    } else {
        "network"@
    }
}

pub const KEYWORD_COUNT: usize = 5;

fn keyword_at(i: usize) -> (r: &'static str)
    requires
        i < KEYWORD_COUNT,
    ensures
        r@ == spec_keyword(i as int),
{
    if i == 0 {
        "带宽"
    } else if i == 1 {
        "网络"
    } else if i == 2 {
        "限速"
    } else if i == 3 {
        "bandwidth"
    } else {
        "network"
    }
}

/// Whether a category's lower-cased name holds the keyword; an unnamed
/// category never matches.
pub open spec fn spec_category_matches(c: Category, kw: Seq<char>) -> bool {
    match c.category_name {
        Some(n) => spec_contains(spec_lower_chars(n@), kw),
        None => false,
    }
}

/// The first category matching the keyword, in listing order.
pub open spec fn spec_first_category_for(cats: Seq<Category>, kw: Seq<char>) -> Option<Category>
    decreases cats.len(),
{
    if cats.len() == 0 {
        None
    } else if spec_category_matches(cats[0], kw) {
        Some(cats[0])
    } else {
        spec_first_category_for(cats.drop_first(), kw)
    }
}

/// The chosen category, trying the keywords from position `ki` on: the first
/// keyword with any match wins, and among its matches the first category in
/// listing order.
pub open spec fn spec_category_choice(cats: Seq<Category>, ki: int) -> Option<Category>
    decreases KEYWORD_COUNT - ki,
{
    if ki < 0 || ki >= KEYWORD_COUNT {
        None
    } else {
        match spec_first_category_for(cats, spec_keyword(ki)) {
            Some(c) => Some(c),
            None => spec_category_choice(cats, ki + 1),
        }
    }
}

/// Whether two optional strings hold the same text.
pub open spec fn opt_str_eq(a: Option<String>, b: Option<String>) -> bool {
    match (a, b) {
        (Some(x), Some(y)) => x@ == y@,
        (None, None) => true,
        _ => false,
    }
}

/// The resolved category: its identifier, its name as listed, and whether it
/// is only the fall-back (no keyword matched).
pub struct CategoryChoice {
    pub category_id: u64,
    pub category_name: Option<String>,
    pub fallback: bool,
}

/// The first category matching one keyword.
fn first_category_for(cats: &Vec<Category>, kw: &str) -> (r: Option<usize>)
    ensures
        match r {
            Some(i) => i < cats@.len() && spec_first_category_for(cats@, kw@) == Some(
                cats@[i as int],
            ),
            None => spec_first_category_for(cats@, kw@) is None,
        },
{
    let n = cats.len();
    proof {
        assert(cats@.skip(0) =~= cats@);
    }
    let mut i: usize = 0;
    while i < n
        invariant
            n == cats@.len(),
            0 <= i <= n,
            spec_first_category_for(cats@, kw@) == spec_first_category_for(
                cats@.skip(i as int),
                kw@,
            ),
        decreases n - i,
    {
        let c = slice_index_get(cats.as_slice(), i);
        proof {
            assert(cats@.skip(i as int)[0] == cats@[i as int]);
            assert(cats@.skip(i as int).drop_first() =~= cats@.skip(i + 1));
        }
        let matched = match &c.category_name {
            Some(name) => contains_str_folded(name.as_str(), kw),
            None => false,
        };
        if matched {
            return Some(i);
        }
        i = i + 1;
    }
    proof {
        assert(cats@.skip(n as int).len() == 0);
    }
    None
}

/// Resolves the category: the first keyword in list order with any matching
/// category wins, and among its matches the first category in listing order;
/// with no keyword match the first listed category stands in as a marked
/// fall-back; an empty listing, or a chosen category without an identifier,
/// fails.
pub fn resolve_category(categories: &Vec<Category>) -> (r: Result<CategoryChoice, ApiError>)
    ensures
        ({
            match spec_category_choice(categories@, 0) {
                Some(c) => {
                    &&& (c.category_id is Some ==> (r matches Ok(ch) && ch.category_id
                        == c.category_id->Some_0 && ch.fallback == false && opt_str_eq(
                        ch.category_name,
                        c.category_name,
                    )))
                    &&& (c.category_id is None ==> r == Err::<CategoryChoice, ApiError>(
                        ApiError::CategoryIdMissing,
                    ))
                },
                None => {
                    &&& (categories@.len() == 0 ==> r == Err::<CategoryChoice, ApiError>(
                        ApiError::CategoriesEmpty,
                    ))
                    &&& (categories@.len() > 0 ==> ({
                        let first = categories@[0];
                        &&& (first.category_id is Some ==> (r matches Ok(ch) && ch.category_id
                            == first.category_id->Some_0 && ch.fallback == true && opt_str_eq(
                            ch.category_name,
                            first.category_name,
                        )))
                        &&& (first.category_id is None ==> r == Err::<CategoryChoice, ApiError>(
                            ApiError::CategoryIdMissing,
                        ))
                    }))
                },
            }
        }),
{
    let mut ki: usize = 0;
    while ki < KEYWORD_COUNT
        invariant
            0 <= ki <= KEYWORD_COUNT,
            spec_category_choice(categories@, 0) == spec_category_choice(categories@, ki as int),
        decreases KEYWORD_COUNT - ki,
    {
        let kw = keyword_at(ki);
        match first_category_for(categories, kw) {
            Some(i) => {
                let c = slice_index_get(categories.as_slice(), i);
                match c.category_id {
                    Some(id) => {
                        let name = match &c.category_name {
                            Some(n) => Some(n.clone()),
                            None => None,
                        };
                        return Ok(
                            CategoryChoice { category_id: id, category_name: name, fallback: false },
                        );
                    },
                    None => {
                        return Err(ApiError::CategoryIdMissing);
                    },
                }
            },
            None => {},
        }
        ki = ki + 1;
    }
    if categories.len() == 0 {
        return Err(ApiError::CategoriesEmpty);
    }
    let first = slice_index_get(categories.as_slice(), 0);
    match first.category_id {
        Some(id) => {
            let name = match &first.category_name {
                Some(n) => Some(n.clone()),
                None => None,
            };
            Ok(CategoryChoice { category_id: id, category_name: name, fallback: true })
        },
        None => Err(ApiError::CategoryIdMissing),
    }
}

// ---------------------------------------------------------------------------
// Call plans and the signed request
// ---------------------------------------------------------------------------

/// The query parameters of the product-listing call.
pub fn plan_list_products() -> (r: Vec<(String, String)>)
    ensures
        view_pairs_chars(r@) == seq![("Language"@, "zh"@)],
{
    let mut v: Vec<(String, String)> = Vec::new();
    v.push((String::from_str("Language"), String::from_str("zh")));
    proof {
        assert(view_pairs_chars(v@) =~= seq![("Language"@, "zh"@)]);
    }
    v
}

/// The query parameters of the category-listing call.
pub fn plan_list_categories(product_id: u64) -> (r: Vec<(String, String)>)
    ensures
        view_pairs_chars(r@) == seq![
            ("ProductId"@, spec_decimal_chars(product_id as nat)),
            ("Language"@, "zh"@),
        ],
{
    let mut v: Vec<(String, String)> = Vec::new();
    v.push((String::from_str("ProductId"), decimal_string(product_id)));
    v.push((String::from_str("Language"), String::from_str("zh")));
    proof {
        assert(view_pairs_chars(v@) =~= seq![
            ("ProductId"@, spec_decimal_chars(product_id as nat)),
            ("Language"@, "zh"@),
        ]);
    }
    v
}

/// The query parameters of the ticket-creating call: the resolved category,
/// the urgent severity, and the configured title and description.
pub fn plan_create_ticket(category_id: u64, title: &String, description: &String) -> (r: Vec<
    (String, String),
>)
    ensures
        view_pairs_chars(r@) == seq![
            ("CategoryId"@, spec_decimal_chars(category_id as nat)),
            ("Severity"@, "2"@),
            ("Title"@, title@),
            ("Description"@, description@),
        ],
{
    let mut v: Vec<(String, String)> = Vec::new();
    v.push((String::from_str("CategoryId"), decimal_string(category_id)));
    v.push((String::from_str("Severity"), String::from_str("2")));
    v.push((String::from_str("Title"), title.clone()));
    v.push((String::from_str("Description"), description.clone()));
    proof {
        assert(view_pairs_chars(v@) =~= seq![
            ("CategoryId"@, spec_decimal_chars(category_id as nat)),
            ("Severity"@, "2"@),
            ("Title"@, title@),
            ("Description"@, description@),
        ]);
    }
    v
}

/// What the submit pipeline must still resolve: a configured non-zero
/// identifier skips its resolution step.
pub struct SubmitPlan {
    pub resolve_product: bool,
    pub resolve_category: bool,
    pub product_id: u64,
    pub category_id: u64,
}

/// The submit pipeline's plan for the configured identifiers.
pub fn submit_plan(product_id: u64, category_id: u64) -> (r: SubmitPlan)
    ensures
        r.resolve_product == (product_id == 0),
        r.resolve_category == (category_id == 0),
        r.product_id == product_id,
        r.category_id == category_id,
{
    SubmitPlan {
        resolve_product: product_id == 0,
        resolve_category: category_id == 0,
        product_id,
        category_id,
    }
}

/// One fully prepared outbound call: the URL, the query parameters, and the
/// headers including the authorization value.
pub struct SignedRequest {
    pub url: String,
    pub query: Vec<(String, String)>,
    pub headers: Vec<(String, String)>,
}

/// The provider's required headers for one call.
pub open spec fn spec_api_headers(
    endpoint: Seq<char>,
    action: Seq<char>,
    version: Seq<char>,
    ts: Seq<char>,
    nonce: Seq<char>,
) -> Seq<(Seq<char>, Seq<char>)> {
    seq![
        ("host"@, endpoint),
        ("x-acs-action"@, action),
        ("x-acs-version"@, version),
        ("x-acs-date"@, ts),
        ("x-acs-signature-nonce"@, nonce),
        (
            "x-acs-content-sha256"@,
            spec_hex_lower(sha256_of(encode_utf8(""@))).map_values(|b: u8| b as char),
        ),
    ]
}

/// What a prepared request looks like: the provider's URL, the given query
/// parameters, the required headers for the timestamp and nonce, and an
/// authorization value signed over exactly those parts with an empty body.
pub open spec fn spec_request_shape(
    r: SignedRequest,
    key_id: Seq<char>,
    secret: Seq<char>,
    endpoint: Seq<char>,
    version: Seq<char>,
    action: Seq<char>,
    params: Seq<(String, String)>,
    ts: Seq<char>,
    nonce: Seq<char>,
) -> bool {
    &&& r.url@ == "https://"@ + endpoint + "/"@
    &&& view_pairs_chars(r.query@) == view_pairs_chars(params)
    &&& r.headers@.len() == 7
    &&& view_pairs_chars(r.headers@).subrange(0, 6) == spec_api_headers(
        endpoint,
        action,
        version,
        ts,
        nonce,
    )
    &&& r.headers@[6].0@ == "Authorization"@
    &&& encode_utf8(r.headers@[6].1@) == spec_authorization(
        key_id,
        secret,
        encode_utf8("GET"@),
        view_pairs(params),
        spec_api_headers(endpoint, action, version, ts, nonce),
        encode_utf8(""@),
    )
}

/// Builds the signed request for one call from the given timestamp and
/// nonce; pure, so equal inputs give an identical request.
pub fn build_api_request(
    signer: &AliyunSigner,
    endpoint: &String,
    api_version: &String,
    action: &String,
    params: Vec<(String, String)>,
    timestamp: String,
    nonce: String,
) -> (r: Result<SignedRequest, ApiError>)
    ensures
        r is Ok,
        spec_request_shape(
            r->Ok_0,
            signer.key_id(),
            signer.key_secret(),
            endpoint@,
            api_version@,
            action@,
            params@,
            timestamp@,
            nonce@,
        ),
{
    let url = String::from_str("https://").concat(endpoint.as_str()).concat("/");
    let empty_hash = sha256_hex("");
    let mut headers: Vec<(String, String)> = Vec::new();
    headers.push((String::from_str("host"), endpoint.clone()));
    headers.push((String::from_str("x-acs-action"), action.clone()));
    headers.push((String::from_str("x-acs-version"), api_version.clone()));
    headers.push((String::from_str("x-acs-date"), timestamp));
    headers.push((String::from_str("x-acs-signature-nonce"), nonce));
    headers.push((String::from_str("x-acs-content-sha256"), empty_hash));
    proof {
        assert(view_pairs_chars(headers@) =~= spec_api_headers(
            endpoint@,
            action@,
            api_version@,
            timestamp@,
            nonce@,
        ));
    }
    let auth = match signer.sign("GET", &params, &headers, "") {
        Ok(a) => a,
        Err(_) => {
            return Err(ApiError::Signing);
        },
    };
    headers.push((String::from_str("Authorization"), auth));
    let r = SignedRequest { url, query: params, headers };
    proof {
        assert(view_pairs_chars(r.headers@).subrange(0, 6) =~= spec_api_headers(
            endpoint@,
            action@,
            api_version@,
            timestamp@,
            nonce@,
        ));
    }
    Ok(r)
}

/// Relies on chrono::Utc::now with the provider's fixed format
/// `YYYY-MM-DDTHH:MM:SSZ`; the result depends on the clock, so nothing is
/// stated of it.
#[verifier::external_body]
fn utc_timestamp() -> (r: String) {
    chrono::Utc::now().format("%Y-%m-%dT%H:%M:%SZ").to_string()
}

/// Prepares one call: draws a fresh nonce and the current timestamp and
/// builds the signed request around them.
pub fn prepare_request(
    signer: &AliyunSigner,
    endpoint: &String,
    api_version: &String,
    action: &String,
    params: Vec<(String, String)>,
) -> (r: Result<SignedRequest, ApiError>)
    ensures
        r is Ok,
        exists|ts: Seq<char>, nonce: Seq<char>|
            spec_request_shape(
                r->Ok_0,
                signer.key_id(),
                signer.key_secret(),
                endpoint@,
                api_version@,
                action@,
                params@,
                ts,
                nonce,
            ),
{
    let ts = utc_timestamp();
    let nonce = crate::text::fresh_opaque_id();
    let ghost tsv = ts@;
    let ghost nv = nonce@;
    let r = build_api_request(signer, endpoint, api_version, action, params, ts, nonce);
    proof {
        assert(spec_request_shape(
            r->Ok_0,
            signer.key_id(),
            signer.key_secret(),
            endpoint@,
            api_version@,
            action@,
            params@,
            tsv,
            nv,
        ));
    }
    r
}

// ---------------------------------------------------------------------------
// Error messages
// ---------------------------------------------------------------------------

/// The diagnostic lines of the scan listing, one product per line.
pub open spec fn spec_listing_lines(l: Seq<(Seq<char>, Seq<char>, u64)>) -> Seq<char>
    decreases l.len(),
{
    if l.len() == 0 {
        Seq::empty()
    } else {
        spec_listing_lines(l.drop_last()) + "  ["@ + l.last().0 + "] "@ + l.last().1
            + " (ProductId: "@ + spec_decimal_chars(l.last().2 as nat) + ")\n"@
    }
}

/// The human-readable message of an error.
pub open spec fn spec_api_error_message(e: ApiError) -> Seq<char> {
    match e {
        ApiError::Signing => "签名计算失败"@,
        ApiError::Transport(m) => "HTTP 请求失败: "@ + m@,
        ApiError::HttpStatus(s, b) => "API 返回错误 (HTTP "@ + spec_decimal_chars(s as nat) + "): "@
            + b@,
        ApiError::Upstream(m) => "接口调用失败: "@ + m@,
        ApiError::MissingData => "返回数据为空"@,
        ApiError::ProductNotFound(l) => "未找到轻量应用服务器产品，请手动设置 TICKET_PRODUCT_ID 环境变量。已扫描的产品:\n"@
            + spec_listing_lines(view_scanned(l@)),
        ApiError::ProductIdMissing => "产品ID为空"@,
        ApiError::CategoriesEmpty => "未找到任何工单分类，请手动设置 TICKET_CATEGORY_ID 环境变量"@,
        ApiError::CategoryIdMissing => "分类ID为空"@,
    }
}

impl ApiError {
    /// Renders the error for the operator; the scan listing names every
    /// scanned product.
    pub fn message(&self) -> (r: String)
        ensures
            r@ == spec_api_error_message(*self),
    {
        match self {
            ApiError::Signing => String::from_str("签名计算失败"),
            ApiError::Transport(m) => String::from_str("HTTP 请求失败: ").concat(m.as_str()),
            ApiError::HttpStatus(s, b) => {
                let mut out = String::from_str("API 返回错误 (HTTP ");
                let num = decimal_string(*s as u64);
                out.append(num.as_str());
                out.append("): ");
                out.append(b.as_str());
                proof {
                    assert(out@ =~= spec_api_error_message(*self));
                }
                out
            },
            ApiError::Upstream(m) => String::from_str("接口调用失败: ").concat(m.as_str()),
            ApiError::MissingData => String::from_str("返回数据为空"),
            ApiError::ProductNotFound(l) => {
                let mut out = String::from_str(
                    "未找到轻量应用服务器产品，请手动设置 TICKET_PRODUCT_ID 环境变量。已扫描的产品:\n",
                );
                let n = l.len();
                let mut i: usize = 0;
                while i < n
                    invariant
                        n == l@.len(),
                        0 <= i <= n,
                        out@ == "未找到轻量应用服务器产品，请手动设置 TICKET_PRODUCT_ID 环境变量。已扫描的产品:\n"@
                            + spec_listing_lines(view_scanned(l@).subrange(0, i as int)),
                    decreases n - i,
                {
                    let s = slice_index_get(l.as_slice(), i);
                    out.append("  [");
                    out.append(s.directory_name.as_str());
                    out.append("] ");
                    out.append(s.product_name.as_str());
                    out.append(" (ProductId: ");
                    let num = decimal_string(s.product_id);
                    out.append(num.as_str());
                    out.append(")\n");
                    proof {
                        let lv = view_scanned(l@);
                        assert(lv.subrange(0, i + 1).drop_last() =~= lv.subrange(0, i as int));
                        assert(lv.subrange(0, i + 1).last() == lv[i as int]);
                        assert(out@ =~= "未找到轻量应用服务器产品，请手动设置 TICKET_PRODUCT_ID 环境变量。已扫描的产品:\n"@
                            + spec_listing_lines(lv.subrange(0, i + 1)));
                    }
                    i = i + 1;
                }
                proof {
                    assert(view_scanned(l@).subrange(0, n as int) =~= view_scanned(l@));
                }
                out
            },
            ApiError::ProductIdMissing => String::from_str("产品ID为空"),
            ApiError::CategoriesEmpty => String::from_str(
                "未找到任何工单分类，请手动设置 TICKET_CATEGORY_ID 环境变量",
            ),
            ApiError::CategoryIdMissing => String::from_str("分类ID为空"),
        }
    }
}

/// The products of the directories from position `i` on.
pub open spec fn spec_all_products_rest(dirs: Seq<ProductDirectory>, i: int) -> Seq<Product> {
    spec_all_products(dirs.skip(i))
}

proof fn lemma_all_products_extend(dirs: Seq<ProductDirectory>, i: int)
    requires
        0 <= i < dirs.len(),
    ensures
        spec_all_products(dirs) == spec_all_products(dirs.subrange(0, i + 1))
            + spec_all_products_rest(dirs, i + 1),
    decreases dirs.len() - i,
{
    lemma_all_products_peel(dirs, i + 1);
}

proof fn lemma_all_products_peel(dirs: Seq<ProductDirectory>, i: int)
    requires
        0 <= i <= dirs.len(),
    ensures
        spec_all_products(dirs) == spec_all_products(dirs.subrange(0, i)) + spec_all_products(
            dirs.skip(i),
        ),
    decreases dirs.len(),
{
    if dirs.len() == 0 {
        assert(dirs.subrange(0, i) =~= dirs);
        assert(dirs.skip(i) =~= dirs);
        assert(spec_all_products(dirs) + spec_all_products(dirs) =~= spec_all_products(dirs));
    } else if i == dirs.len() {
        assert(dirs.subrange(0, i) =~= dirs);
        assert(dirs.skip(i).len() == 0);
        assert(spec_all_products(dirs) + spec_all_products(dirs.skip(i)) =~= spec_all_products(
            dirs,
        ));
    } else {
        lemma_all_products_peel(dirs.drop_last(), i);
        assert(dirs.drop_last().subrange(0, i) =~= dirs.subrange(0, i));
        assert(dirs.drop_last().skip(i) =~= dirs.skip(i).drop_last());
        assert(dirs.skip(i).len() > 0);
        assert(dirs.skip(i).last() == dirs.last());
        assert(spec_all_products(dirs.subrange(0, i)) + (spec_all_products(dirs.skip(i).drop_last())
            + spec_dir_products(dirs.last())) =~= (spec_all_products(dirs.subrange(0, i))
            + spec_all_products(dirs.skip(i).drop_last())) + spec_dir_products(dirs.last()));
    }
}

} // verus!
