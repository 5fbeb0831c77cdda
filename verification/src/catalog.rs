//! The catalog: services, products, teams and knowledge sources, one YAML
//! file per entry under `catalog/<kind>/<id>.yaml`.
//!
//! Reading and writing the files is the caller's; here are the paths, the
//! verdict of a validation pass, `context.resolve` (which products, services
//! and knowledge sources a free-text query points at) and the strict
//! partial update of a service entry.
use vstd::prelude::*;
use crate::command::CommandInfo;
use crate::error::WorkspaceError;
use crate::models::{
    lookup, CatalogDoc, CatalogIssueTracking, CommandMap, DeployConfig, ProductCatalog,
    ProductKnowledgeSource, ServiceCatalog, TeamCatalog, UnderstandAnythingConfig,
};
use crate::text::{
    alnum, char_is_alphanumeric, char_is_whitespace, chars_string, contains_chars, contains_seq,
    join_path, owned, path_join, push_str, slice_chars, str_chars, str_contains, str_eq,
    str_to_lowercase, unicode_str_lower, views, white,
};

verus! {

// ==========================================
// Paths
// ==========================================

/// `<root>/catalog`.
pub fn get_catalog_dir(root: &str) -> (d: String)
    ensures
        d@ == path_join(root@, "catalog"@),
{
    join_path(root, "catalog")
}

/// `<root>/catalog/<kind>`.
pub fn get_kind_dir(root: &str, kind: &str) -> (d: String)
    ensures
        d@ == path_join(path_join(root@, "catalog"@), kind@),
{
    let c = get_catalog_dir(root);
    join_path(c.as_str(), kind)
}

/// `<root>/catalog/<kind>/<id>.yaml`: where an entry is stored.
pub fn catalog_entry_path(root: &str, kind: &str, id: &str) -> (p: String)
    ensures
        p@ == path_join(path_join(path_join(root@, "catalog"@), kind@), id@ + ".yaml"@),
{
    let d = get_kind_dir(root, kind);
    let mut f = owned(id);
    push_str(&mut f, ".yaml");
    join_path(d.as_str(), f.as_str())
}

/// The kinds of catalog entries, in the order a validation pass visits them.
#[derive(Clone, Copy, PartialEq, Eq, Structural, Debug)]
pub enum CatalogKind {
    Service,
    Product,
    Team,
    Knowledge,
}

pub open spec fn kind_dir(k: CatalogKind) -> Seq<char> {
    match k {
        CatalogKind::Service => "services"@,
        CatalogKind::Product => "products"@,
        CatalogKind::Team => "teams"@,
        CatalogKind::Knowledge => "knowledge"@,
    }
}

pub open spec fn kind_word(k: CatalogKind) -> Seq<char> {
    match k {
        CatalogKind::Service => "service"@,
        CatalogKind::Product => "product"@,
        CatalogKind::Team => "team"@,
        CatalogKind::Knowledge => "knowledge"@,
    }
}

impl CatalogKind {
    /// The directory under `catalog/` holding entries of this kind.
    pub fn dir(&self) -> (s: &'static str)
        ensures
            s@ == kind_dir(*self),
    {
        match self {
            CatalogKind::Service => "services",
            CatalogKind::Product => "products",
            CatalogKind::Team => "teams",
            CatalogKind::Knowledge => "knowledge",
        }
    }

    /// The kind as named in messages.
    pub fn word(&self) -> (s: &'static str)
        ensures
            s@ == kind_word(*self),
    {
        match self {
            CatalogKind::Service => "service",
            CatalogKind::Product => "product",
            CatalogKind::Team => "team",
            CatalogKind::Knowledge => "knowledge",
        }
    }
}

/// The error of a lookup that found no entry: `Service 'x' not found in
/// catalog`, `Knowledge source 'x' not found in catalog`, and so on.
pub open spec fn not_found_text(k: CatalogKind, id: Seq<char>) -> Seq<char> {
    let head = match k {
        CatalogKind::Service => "Service '"@,
        CatalogKind::Product => "Product '"@,
        CatalogKind::Team => "Team '"@,
        CatalogKind::Knowledge => "Knowledge source '"@,
    };
    head + id + "' not found in catalog"@
}

pub fn entry_not_found(k: CatalogKind, id: &str) -> (e: WorkspaceError)
    ensures
        e matches WorkspaceError::NotFound(m) && m@ == not_found_text(k, id@),
{
    let mut m = owned(
        match k {
            CatalogKind::Service => "Service '",
            CatalogKind::Product => "Product '",
            CatalogKind::Team => "Team '",
            CatalogKind::Knowledge => "Knowledge source '",
        },
    );
    push_str(&mut m, id);
    push_str(&mut m, "' not found in catalog");
    WorkspaceError::NotFound(m)
}

/// The extension of a path's last component: after its last `.`, unless
/// the name has no dot or only a leading one.
pub open spec fn extension_of(path: Seq<char>) -> Option<Seq<char>> {
    let name = crate::lint::after_last(path, '/');
    let ext = crate::lint::after_last(name, '.');
    if ext.len() == name.len() || (name.len() > 0 && ext.len() == name.len() - 1) {
        None
    } else {
        Some(ext)
    }
}

/// Whether a path names a YAML file (`.yaml` or `.yml`).
pub open spec fn is_yaml_path(path: Seq<char>) -> bool {
    extension_of(path) matches Some(e) && (e == "yaml"@ || e == "yml"@)
}

/// Whether a catalog directory entry is a YAML file.
pub fn has_yaml_extension(path: &str) -> (res: bool)
    ensures
        res == is_yaml_path(path@),
{
    let v = str_chars(path);
    let name = crate::lint::after_last_char(&v, '/');
    let ext = crate::lint::after_last_char(&name, '.');
    if ext.len() == name.len() || (name.len() > 0 && ext.len() == name.len() - 1) {
        return false;
    }
    let e = chars_string(&ext);
    str_eq(e.as_str(), "yaml") || str_eq(e.as_str(), "yml")
}

/// One catalog file a validation pass read: its kind, path, and the parse
/// error when it is not a valid entry of its kind.
pub struct CatalogFileCheck {
    pub kind: CatalogKind,
    pub path: String,
    pub error: Option<String>,
}

/// The error of the first invalid file, in the order the files were read.
pub open spec fn first_invalid(checks: Seq<CatalogFileCheck>, i: int) -> Option<int>
    decreases checks.len() - i,
{
    if i < 0 || i >= checks.len() {
        None
    } else if checks[i].error is Some {
        Some(i)
    } else {
        first_invalid(checks, i + 1)
    }
}

pub open spec fn invalid_text(c: CatalogFileCheck) -> Seq<char> {
    let err = match c.error {
        Some(e) => e@,
        None => Seq::empty(),
    };
    "Invalid "@ + kind_word(c.kind) + " yaml in "@ + c.path@ + ": "@ + err
}

/// The verdict of a validation pass over the catalog files (services, then
/// products, teams and knowledge sources): the first file that does not
/// parse as its kind fails the whole catalog.
pub fn validate_catalog(checks: &Vec<CatalogFileCheck>) -> (res: Result<(), WorkspaceError>)
    ensures
        match first_invalid(checks@, 0) {
            None => res is Ok,
            Some(i) => res matches Err(WorkspaceError::Catalog(m)) && m@ == invalid_text(
                checks@[i],
            ),
        },
{
    let mut i: usize = 0;
    while i < checks.len()
        invariant
            i <= checks.len(),
            first_invalid(checks@, 0) == first_invalid(checks@, i as int),
        decreases checks.len() - i,
    {
        match &checks[i].error {
            Some(e) => {
                let c = &checks[i];
                let mut m = owned("Invalid ");
                push_str(&mut m, c.kind.word());
                push_str(&mut m, " yaml in ");
                push_str(&mut m, c.path.as_str());
                push_str(&mut m, ": ");
                push_str(&mut m, e.as_str());
                return Err(WorkspaceError::Catalog(m));
            },
            None => {},
        }
        i += 1;
    }
    Ok(())
}

/// The reply of `catalog.validate` on a valid catalog.
pub fn catalog_valid_status() -> (out: crate::lifecycle::StatusOutput)
    ensures
        out.success,
        out.message@ == "All catalog files are valid."@,
{
    crate::lifecycle::StatusOutput { success: true, message: owned("All catalog files are valid.") }
}

// ==========================================
// context.resolve
// ==========================================

/// Length of the run of non-whitespace characters that starts `s`.
pub open spec fn word_len(s: Seq<char>) -> nat
    decreases s.len(),
{
    if s.len() == 0 || white(s[0]) {
        0
    } else {
        1 + word_len(s.drop_first())
    }
}

/// `str::split_whitespace`: the maximal runs of non-whitespace characters.
pub open spec fn split_ws(s: Seq<char>) -> Seq<Seq<char>>
    decreases s.len(),
{
    if s.len() == 0 {
        Seq::empty()
    } else if white(s[0]) {
        split_ws(s.drop_first())
    } else {
        let n = word_len(s);
        proof {
            lemma_word_len(s);
        }
        if n == 0 {
            Seq::empty()
        } else {
            seq![s.take(n as int)] + split_ws(s.skip(n as int))
        }
    }
}

/// `s` without leading non-alphanumeric characters.
pub open spec fn strip_start(s: Seq<char>) -> Seq<char>
    decreases s.len(),
{
    if s.len() > 0 && !alnum(s[0]) {
        strip_start(s.drop_first())
    } else {
        s
    }
}

/// `s` without trailing non-alphanumeric characters.
pub open spec fn strip_end(s: Seq<char>) -> Seq<char>
    decreases s.len(),
{
    if s.len() > 0 && !alnum(s.last()) {
        strip_end(s.drop_last())
    } else {
        s
    }
}

/// `trim_matches(|c| !c.is_alphanumeric())`.
pub open spec fn strip_nonalnum(s: Seq<char>) -> Seq<char> {
    strip_end(strip_start(s))
}

/// The query's tokens: its lowercase form split at whitespace, each piece
/// stripped of surrounding non-alphanumeric characters (a piece may end up
/// empty).
pub open spec fn query_tokens(query: Seq<char>) -> Seq<Seq<char>> {
    split_ws(unicode_str_lower(query)).map_values(|w: Seq<char>| strip_nonalnum(w))
}

pub proof fn lemma_word_len(s: Seq<char>)
    ensures
        word_len(s) <= s.len(),
        forall|k: int| 0 <= k < word_len(s) ==> !white(#[trigger] s[k]),
        word_len(s) < s.len() ==> white(s[word_len(s) as int]),
    decreases s.len(),
{
    if s.len() > 0 && !white(s[0]) {
        lemma_word_len(s.drop_first());
        assert forall|k: int| 0 <= k < word_len(s) implies !white(#[trigger] s[k]) by {
            if k > 0 {
                assert(s[k] == s.drop_first()[k - 1]);
            }
        }
    }
}

fn strip_chars(w: &Vec<char>) -> (r: Vec<char>)
    ensures
        r@ == strip_nonalnum(w@),
{
    let mut a: usize = 0;
    assert(w@.skip(0) =~= w@);
    while a < w.len() && !char_is_alphanumeric(w[a])
        invariant
            a <= w.len(),
            strip_start(w@) == strip_start(w@.skip(a as int)),
        decreases w.len() - a,
    {
        assert(w@.skip(a as int).drop_first() =~= w@.skip(a + 1));
        a += 1;
    }
    assert(strip_start(w@.skip(a as int)) == w@.skip(a as int));
    let mut b: usize = w.len();
    assert(w@.subrange(a as int, b as int) =~= w@.skip(a as int));
    while b > a && !char_is_alphanumeric(w[b - 1])
        invariant
            a <= b <= w.len(),
            strip_nonalnum(w@) == strip_end(w@.subrange(a as int, b as int)),
        decreases b - a,
    {
        assert(w@.subrange(a as int, b as int).drop_last() =~= w@.subrange(a as int, b - 1));
        b -= 1;
    }
    slice_chars(w, a, b)
}

/// The tokens of a query.
pub fn tokenize_query(query: &str) -> (tokens: Vec<String>)
    ensures
        views(tokens@) == query_tokens(query@),
{
    let lower = str_to_lowercase(query);
    let s = str_chars(lower.as_str());
    let ghost full = s@;
    let mut tokens: Vec<String> = Vec::new();
    let mut i: usize = 0;
    assert(full.skip(0) =~= full);
    while i < s.len()
        invariant
            full == s@,
            full == unicode_str_lower(query@),
            i <= s.len(),
            query_tokens(query@) == views(tokens@) + split_ws(full.skip(i as int)).map_values(
                |w: Seq<char>| strip_nonalnum(w),
            ),
        decreases s.len() - i,
    {
        let ghost rest = full.skip(i as int);
        if char_is_whitespace(s[i]) {
            assert(rest.drop_first() =~= full.skip(i + 1));
            i += 1;
        } else {
            let mut e = i;
            proof {
                lemma_word_len(rest);
            }
            while e < s.len() && !char_is_whitespace(s[e])
                invariant
                    full == s@,
                    rest == full.skip(i as int),
                    i <= e <= s.len(),
                    forall|k: int| i <= k < e ==> !white(#[trigger] full[k]),
                    e - i <= word_len(rest),
                    word_len(rest) <= rest.len(),
                    forall|k: int| 0 <= k < word_len(rest) ==> !white(#[trigger] rest[k]),
                    word_len(rest) < rest.len() ==> white(rest[word_len(rest) as int]),
                decreases s.len() - e,
            {
                assert(rest[e - i] == full[e as int]);
                e += 1;
            }
            proof {
                if e - i < word_len(rest) {
                    assert(rest[e - i] == full[e as int]);
                }
                if e < s.len() {
                    assert(rest[e - i] == full[e as int]);
                }
            }
            assert(e - i == word_len(rest));
            let w = slice_chars(&s, i, e);
            assert(w@ =~= rest.take(word_len(rest) as int));
            let t = strip_chars(&w);
            let ghost before = views(tokens@);
            tokens.push(chars_string(&t));
            assert(views(tokens@) =~= before.push(t@));
            assert(rest.skip(word_len(rest) as int) =~= full.skip(e as int));
            assert(split_ws(rest) == seq![rest.take(word_len(rest) as int)] + split_ws(
                full.skip(e as int),
            ));
            assert((seq![w@] + split_ws(full.skip(e as int))).map_values(
                |w: Seq<char>| strip_nonalnum(w),
            ) =~= seq![t@] + split_ws(full.skip(e as int)).map_values(
                |w: Seq<char>| strip_nonalnum(w),
            ));
            i = e;
        }
    }
    assert(full.skip(i as int) =~= Seq::<char>::empty());
    assert(split_ws(full.skip(i as int)).map_values(|w: Seq<char>| strip_nonalnum(w))
        =~= Seq::<Seq<char>>::empty());
    tokens
}

/// Some token occurs in `text`.
pub open spec fn some_token_in(text: Seq<char>, tokens: Seq<Seq<char>>) -> bool {
    exists|j: int| 0 <= j < tokens.len() && contains_seq(text, #[trigger] tokens[j])
}

/// A product matches when a token is its id, its lowercase name contains
/// the lowercase query, or its lowercase description contains a token.
pub open spec fn product_matches(p: ProductCatalog, tokens: Seq<Seq<char>>, ql: Seq<char>) -> bool {
    tokens.contains(p.id@) || contains_seq(unicode_str_lower(p.name@), ql) || some_token_in(
        unicode_str_lower(p.description@),
        tokens,
    )
}

/// Number of non-empty tokens that occur in `text`.
pub open spec fn token_hits(text: Seq<char>, tokens: Seq<Seq<char>>) -> nat
    decreases tokens.len(),
{
    if tokens.len() == 0 {
        0
    } else {
        token_hits(text, tokens.drop_last()) + if tokens.last().len() > 0 && contains_seq(
            text,
            tokens.last(),
        ) {
            1nat
        } else {
            0nat
        }
    }
}

/// A typical scenario matches when two or more tokens occur in it, or the
/// query is a single non-empty token that occurs in it.
pub open spec fn scenario_hit(item: Seq<char>, tokens: Seq<Seq<char>>) -> bool {
    let il = unicode_str_lower(item);
    token_hits(il, tokens) >= 2 || (tokens.len() == 1 && tokens[0].len() > 0 && contains_seq(
        il,
        tokens[0],
    ))
}

/// Index of the first typical scenario from `i` on that the tokens hit.
pub open spec fn first_scenario(items: Seq<Seq<char>>, tokens: Seq<Seq<char>>, i: int) -> Option<int>
    decreases items.len() - i,
{
    if i < 0 || i >= items.len() {
        None
    } else if scenario_hit(items[i], tokens) {
        Some(i)
    } else {
        first_scenario(items, tokens, i + 1)
    }
}

/// Index of the first owned feature from `i` on that the query mentions.
pub open spec fn first_owned(items: Seq<Seq<char>>, ql: Seq<char>, i: int) -> Option<int>
    decreases items.len() - i,
{
    if i < 0 || i >= items.len() {
        None
    } else if contains_seq(ql, unicode_str_lower(items[i])) {
        Some(i)
    } else {
        first_owned(items, ql, i + 1)
    }
}

/// Index of the first non-empty token from `i` on that occurs in `text`.
pub open spec fn first_term(tokens: Seq<Seq<char>>, text: Seq<char>, i: int) -> Option<int>
    decreases tokens.len() - i,
{
    if i < 0 || i >= tokens.len() {
        None
    } else if tokens[i].len() > 0 && contains_seq(text, tokens[i]) {
        Some(i)
    } else {
        first_term(tokens, text, i + 1)
    }
}

/// Why a service is recommended for a query, if it is: its name or id, a
/// typical scenario, a feature it owns, or a description term, tried in
/// that order.
pub open spec fn service_reason(s: ServiceCatalog, tokens: Seq<Seq<char>>, ql: Seq<char>) -> Option<
    Seq<char>,
> {
    if tokens.contains(s.id@) || contains_seq(unicode_str_lower(s.name@), ql) {
        Some("Service name or ID matches query."@)
    } else {
        let likely = views(s.likely_relevant_when@);
        let owns = views(s.owns@);
        match first_scenario(likely, tokens, 0) {
            Some(i) => Some("Matches typical scenario: '"@ + likely[i] + "'"@),
            None => match first_owned(owns, ql, 0) {
                Some(i) => Some("Service owns feature: '"@ + owns[i] + "'"@),
                None => match first_term(tokens, unicode_str_lower(s.description@), 0) {
                    Some(i) => Some("Query contains description term: '"@ + tokens[i] + "'"@),
                    None => None,
                },
            },
        }
    }
}

pub struct ContextResolveInput {
    pub query: String,
}

pub struct RecommendedService {
    pub id: String,
    pub reason: String,
}

pub struct ContextResolveOutput {
    pub query: String,
    pub products: Vec<String>,
    pub recommended_services: Vec<RecommendedService>,
    pub knowledge_sources: Vec<ProductKnowledgeSource>,
}

/// The ids of the matching products, in catalog order.
pub open spec fn matched_products(ps: Seq<ProductCatalog>, tokens: Seq<Seq<char>>, ql: Seq<char>) -> Seq<
    Seq<char>,
>
    decreases ps.len(),
{
    if ps.len() == 0 {
        Seq::empty()
    } else if product_matches(ps.last(), tokens, ql) {
        matched_products(ps.drop_last(), tokens, ql).push(ps.last().id@)
    } else {
        matched_products(ps.drop_last(), tokens, ql)
    }
}

/// The knowledge sources of the matching products, product by product.
pub open spec fn matched_sources(ps: Seq<ProductCatalog>, tokens: Seq<Seq<char>>, ql: Seq<char>) -> Seq<
    ProductKnowledgeSource,
>
    decreases ps.len(),
{
    if ps.len() == 0 {
        Seq::empty()
    } else if product_matches(ps.last(), tokens, ql) {
        matched_sources(ps.drop_last(), tokens, ql) + ps.last().knowledge_sources@
    } else {
        matched_sources(ps.drop_last(), tokens, ql)
    }
}

/// `(id, reason)` of each recommended service, in catalog order.
pub open spec fn recommended(ss: Seq<ServiceCatalog>, tokens: Seq<Seq<char>>, ql: Seq<char>) -> Seq<
    (Seq<char>, Seq<char>),
>
    decreases ss.len(),
{
    if ss.len() == 0 {
        Seq::empty()
    } else {
        let r = recommended(ss.drop_last(), tokens, ql);
        match service_reason(ss.last(), tokens, ql) {
            Some(why) => r.push((ss.last().id@, why)),
            None => r,
        }
    }
}

proof fn lemma_recommended_contains(
    ss: Seq<ServiceCatalog>,
    tokens: Seq<Seq<char>>,
    ql: Seq<char>,
    k: int,
    why: Seq<char>,
)
    requires
        0 <= k < ss.len(),
        service_reason(ss[k], tokens, ql) == Some(why),
    ensures
        recommended(ss, tokens, ql).contains((ss[k].id@, why)),
    decreases ss.len(),
{
    let r = recommended(ss.drop_last(), tokens, ql);
    let all = recommended(ss, tokens, ql);
    if k == ss.len() - 1 {
        assert(all.last() == (ss[k].id@, why));
    } else {
        assert(ss.drop_last()[k] == ss[k]);
        lemma_recommended_contains(ss.drop_last(), tokens, ql, k, why);
        let m = choose|m: int| 0 <= m < r.len() && r[m] == (ss[k].id@, why);
        match service_reason(ss.last(), tokens, ql) {
            Some(w) => assert(all[m] == r[m]),
            None => {},
        }
    }
}

/// A service is recommended for a query that names it: when a query token is
/// its id, or its lower-cased name contains the lower-cased query, the
/// context resolution recommends it with "Service name or ID matches
/// query.", whatever else the service declares.
pub proof fn lemma_named_service_recommended(ss: Seq<ServiceCatalog>, query: Seq<char>, k: int)
    requires
        0 <= k < ss.len(),
        query_tokens(query).contains(ss[k].id@) || contains_seq(
            unicode_str_lower(ss[k].name@),
            unicode_str_lower(query),
        ),
    ensures
        recommended(ss, query_tokens(query), unicode_str_lower(query)).contains(
            (ss[k].id@, "Service name or ID matches query."@),
        ),
{
    lemma_recommended_contains(
        ss,
        query_tokens(query),
        unicode_str_lower(query),
        k,
        "Service name or ID matches query."@,
    );
}

fn contains_token(tokens: &Vec<String>, x: &str) -> (res: bool)
    ensures
        res == views(tokens@).contains(x@),
{
    let mut k: usize = 0;
    while k < tokens.len()
        invariant
            k <= tokens.len(),
            forall|j: int| 0 <= j < k ==> tokens@[j]@ != x@,
        decreases tokens.len() - k,
    {
        if str_eq(tokens[k].as_str(), x) {
            assert(views(tokens@)[k as int] == x@);
            return true;
        }
        k += 1;
    }
    false
}

fn any_token_in(text: &str, tokens: &Vec<String>) -> (res: bool)
    ensures
        res == some_token_in(text@, views(tokens@)),
{
    let mut k: usize = 0;
    while k < tokens.len()
        invariant
            k <= tokens.len(),
            forall|j: int| 0 <= j < k ==> !contains_seq(text@, #[trigger] views(tokens@)[j]),
        decreases tokens.len() - k,
    {
        if str_contains(text, tokens[k].as_str()) {
            assert(contains_seq(text@, views(tokens@)[k as int]));
            return true;
        }
        k += 1;
    }
    false
}

fn count_hits(text: &str, tokens: &Vec<String>) -> (n: usize)
    ensures
        n == token_hits(text@, views(tokens@)),
{
    let mut n: usize = 0;
    let mut k: usize = 0;
    while k < tokens.len()
        invariant
            k <= tokens.len(),
            n == token_hits(text@, views(tokens@).take(k as int)),
            n <= k,
        decreases tokens.len() - k,
    {
        assert(views(tokens@).take(k + 1).drop_last() =~= views(tokens@).take(k as int));
        if tokens[k].as_str().unicode_len() > 0 && str_contains(text, tokens[k].as_str()) {
            n += 1;
        }
        k += 1;
    }
    assert(views(tokens@).take(tokens.len() as int) =~= views(tokens@));
    n
}

fn copy_source(k: &ProductKnowledgeSource) -> (c: ProductKnowledgeSource)
    ensures
        c == *k,
{
    ProductKnowledgeSource {
        provider: k.provider.clone(),
        space: match &k.space {
            Some(x) => Some(x.clone()),
            None => None,
        },
        project: match &k.project {
            Some(x) => Some(x.clone()),
            None => None,
        },
        label: match &k.label {
            Some(x) => Some(x.clone()),
            None => None,
        },
    }
}

fn reason_for(s: &ServiceCatalog, tokens: &Vec<String>, ql: &str) -> (res: Option<String>)
    ensures
        match res {
            Some(r) => service_reason(*s, views(tokens@), ql@) == Some(r@),
            None => service_reason(*s, views(tokens@), ql@) is None,
        },
{
    let ghost tv = views(tokens@);
    let name_l = str_to_lowercase(s.name.as_str());
    if contains_token(tokens, s.id.as_str()) || str_contains(name_l.as_str(), ql) {
        return Some(owned("Service name or ID matches query."));
    }
    let ghost likely = views(s.likely_relevant_when@);
    let mut i: usize = 0;
    while i < s.likely_relevant_when.len()
        invariant
            i <= s.likely_relevant_when.len(),
            tv == views(tokens@),
            !tv.contains(s.id@) && !contains_seq(unicode_str_lower(s.name@), ql@),
            likely == views(s.likely_relevant_when@),
            first_scenario(likely, tv, 0) == first_scenario(likely, tv, i as int),
        decreases s.likely_relevant_when.len() - i,
    {
        let item = &s.likely_relevant_when[i];
        let il = str_to_lowercase(item.as_str());
        let hits = count_hits(il.as_str(), tokens);
        let single = tokens.len() == 1 && tokens[0].as_str().unicode_len() > 0 && str_contains(
            il.as_str(),
            tokens[0].as_str(),
        );
        assert(scenario_hit(likely[i as int], tv) == (hits >= 2 || single));
        if hits >= 2 || single {
            let mut r = owned("Matches typical scenario: '");
            push_str(&mut r, item.as_str());
            push_str(&mut r, "'");
            return Some(r);
        }
        i += 1;
    }
    let ghost owns = views(s.owns@);
    let mut j: usize = 0;
    while j < s.owns.len()
        invariant
            j <= s.owns.len(),
            owns == views(s.owns@),
            tv == views(tokens@),
            likely == views(s.likely_relevant_when@),
            !tv.contains(s.id@) && !contains_seq(unicode_str_lower(s.name@), ql@),
            first_scenario(likely, tv, 0) is None,
            first_owned(owns, ql@, 0) == first_owned(owns, ql@, j as int),
        decreases s.owns.len() - j,
    {
        let item = &s.owns[j];
        let il = str_to_lowercase(item.as_str());
        if str_contains(ql, il.as_str()) {
            let mut r = owned("Service owns feature: '");
            push_str(&mut r, item.as_str());
            push_str(&mut r, "'");
            return Some(r);
        }
        j += 1;
    }
    let desc_l = str_to_lowercase(s.description.as_str());
    let mut k: usize = 0;
    while k < tokens.len()
        invariant
            k <= tokens.len(),
            tv == views(tokens@),
            desc_l@ == unicode_str_lower(s.description@),
            owns == views(s.owns@),
            likely == views(s.likely_relevant_when@),
            !tv.contains(s.id@) && !contains_seq(unicode_str_lower(s.name@), ql@),
            first_scenario(likely, tv, 0) is None,
            first_owned(owns, ql@, 0) is None,
            first_term(tv, desc_l@, 0) == first_term(tv, desc_l@, k as int),
        decreases tokens.len() - k,
    {
        let t = &tokens[k];
        if t.as_str().unicode_len() > 0 && str_contains(desc_l.as_str(), t.as_str()) {
            let mut r = owned("Query contains description term: '");
            push_str(&mut r, t.as_str());
            push_str(&mut r, "'");
            return Some(r);
        }
        k += 1;
    }
    None
}

/// `context.resolve` over the catalog's products and services: the
/// matching products (by id token, name or description term) with their
/// knowledge sources, and the recommended services with the reason each
/// is recommended.
pub fn resolve_context(
    query: String,
    products: &Vec<ProductCatalog>,
    services: &Vec<ServiceCatalog>,
) -> (out: ContextResolveOutput)
    ensures
        out.query == query,
        views(out.products@) == matched_products(
            products@,
            query_tokens(query@),
            unicode_str_lower(query@),
        ),
        out.knowledge_sources@ == matched_sources(
            products@,
            query_tokens(query@),
            unicode_str_lower(query@),
        ),
        out.recommended_services@.map_values(|r: RecommendedService| (r.id@, r.reason@))
            == recommended(services@, query_tokens(query@), unicode_str_lower(query@)),
{
    let ql = str_to_lowercase(query.as_str());
    let tokens = tokenize_query(query.as_str());
    let ghost tv = views(tokens@);
    let mut matched: Vec<String> = Vec::new();
    let mut sources: Vec<ProductKnowledgeSource> = Vec::new();
    let mut i: usize = 0;
    while i < products.len()
        invariant
            i <= products.len(),
            tv == views(tokens@),
            tv == query_tokens(query@),
            ql@ == unicode_str_lower(query@),
            views(matched@) == matched_products(products@.take(i as int), tv, ql@),
            sources@ == matched_sources(products@.take(i as int), tv, ql@),
        decreases products.len() - i,
    {
        let p = &products[i];
        assert(products@.take(i + 1).drop_last() =~= products@.take(i as int));
        let name_l = str_to_lowercase(p.name.as_str());
        let desc_l = str_to_lowercase(p.description.as_str());
        let hit = contains_token(&tokens, p.id.as_str()) || str_contains(name_l.as_str(), ql.as_str())
            || any_token_in(desc_l.as_str(), &tokens);
        if hit {
            let ghost before = views(matched@);
            matched.push(p.id.clone());
            assert(views(matched@) =~= before.push(p.id@));
            let ghost s0 = sources@;
            let mut k: usize = 0;
            while k < p.knowledge_sources.len()
                invariant
                    k <= p.knowledge_sources.len(),
                    sources@ == s0 + p.knowledge_sources@.take(k as int),
                decreases p.knowledge_sources.len() - k,
            {
                sources.push(copy_source(&p.knowledge_sources[k]));
                assert(sources@ =~= s0 + p.knowledge_sources@.take(k + 1));
                k += 1;
            }
            assert(p.knowledge_sources@.take(p.knowledge_sources.len() as int)
                =~= p.knowledge_sources@);
        }
        i += 1;
    }
    assert(products@.take(products.len() as int) =~= products@);
    let mut recs: Vec<RecommendedService> = Vec::new();
    let mut j: usize = 0;
    while j < services.len()
        invariant
            j <= services.len(),
            tv == views(tokens@),
            tv == query_tokens(query@),
            ql@ == unicode_str_lower(query@),
            recs@.map_values(|r: RecommendedService| (r.id@, r.reason@)) == recommended(
                services@.take(j as int),
                tv,
                ql@,
            ),
        decreases services.len() - j,
    {
        let s = &services[j];
        assert(services@.take(j + 1).drop_last() =~= services@.take(j as int));
        match reason_for(s, &tokens, ql.as_str()) {
            Some(reason) => {
                let ghost before = recs@.map_values(|r: RecommendedService| (r.id@, r.reason@));
                let r = RecommendedService { id: s.id.clone(), reason };
                recs.push(r);
                assert(recs@.map_values(|r: RecommendedService| (r.id@, r.reason@)) =~= before.push(
                    (s.id@, r.reason@),
                ));
            },
            None => {},
        }
        j += 1;
    }
    assert(services@.take(services.len() as int) =~= services@);
    ContextResolveOutput {
        query,
        products: matched,
        recommended_services: recs,
        knowledge_sources: sources,
    }
}

// ==========================================
// catalog.service.update
// ==========================================

/// A strict partial patch of a service entry: `commands` is merged key by
/// key (setting `commands.dev` leaves `commands.test` alone); every other
/// present field replaces the entry's value.
pub struct CatalogServiceUpdateInput {
    pub id: String,
    pub name: Option<String>,
    pub description: Option<String>,
    pub team: Option<String>,
    pub products: Option<Vec<String>>,
    pub owns: Option<Vec<String>>,
    pub likely_relevant_when: Option<Vec<String>>,
    /// Per-key merge into the entry's `commands`.
    pub commands: Option<Vec<(String, String)>>,
    pub issue_tracking: Option<CatalogIssueTracking>,
    pub docs: Option<Vec<CatalogDoc>>,
    pub understand_anything: Option<UnderstandAnythingConfig>,
    pub deploy: Option<DeployConfig>,
}

/// The value a patch gives a key: its last pair with that key.
pub open spec fn patch_value(patch: Seq<(String, String)>, k: Seq<char>) -> Option<Seq<char>>
    decreases patch.len(),
{
    if patch.len() == 0 {
        None
    } else if patch.last().0@ == k {
        Some(patch.last().1@)
    } else {
        patch_value(patch.drop_last(), k)
    }
}

/// A command after the merge: the patch's value for the key, else the
/// entry's.
pub open spec fn merged_command(old: CommandMap, patch: Option<Vec<(String, String)>>, k: Seq<char>) -> Option<
    Seq<char>,
> {
    match patch {
        Some(p) => match patch_value(p@, k) {
            Some(v) => Some(v),
            None => old.spec_get(k),
        },
        None => old.spec_get(k),
    }
}

pub open spec fn replaced<T>(old: T, new: Option<T>) -> T {
    match new {
        Some(v) => v,
        None => old,
    }
}

/// Sets each key of `pairs` in order, so a later pair wins.
pub fn merge_commands(commands: &mut CommandMap, pairs: Vec<(String, String)>)
    ensures
        forall|q: Seq<char>| #[trigger] final(commands).spec_get(q) == match patch_value(pairs@, q) {
            Some(v) => Some(v),
            None => old(commands).spec_get(q),
        },
{
    let ghost all = pairs@;
    let ghost old_commands = *commands;
    let mut rest = pairs;
    let n = rest.len();
    let mut k: usize = 0;
    while rest.len() > 0
        invariant
            n == all.len(),
            k + rest@.len() == n,
            rest@ == all.skip(k as int),
            forall|q: Seq<char>| #[trigger] commands.spec_get(q) == match patch_value(
                all.take(k as int),
                q,
            ) {
                Some(v) => Some(v),
                None => old_commands.spec_get(q),
            },
        decreases rest@.len(),
    {
        let (key, val) = rest.remove(0);
        assert(all[k as int] == (key, val));
        assert(all.skip(k as int).drop_first() =~= all.skip(k + 1));
        assert(all.take(k + 1).drop_last() =~= all.take(k as int));
        assert(all.take(k + 1).last() == (key, val));
        commands.insert(key, val);
        k += 1;
    }
    assert(all.take(k as int) =~= all);
}

/// Applies a patch to a service entry.
pub fn apply_service_update(service: ServiceCatalog, patch: CatalogServiceUpdateInput) -> (out:
    ServiceCatalog)
    ensures
        out.id == service.id,
        out.kind == service.kind,
        out.repo == service.repo,
        out.name == replaced(service.name, patch.name),
        out.description == replaced(service.description, patch.description),
        out.team == replaced(service.team, patch.team),
        out.products == replaced(service.products, patch.products),
        out.owns == replaced(service.owns, patch.owns),
        out.likely_relevant_when == replaced(
            service.likely_relevant_when,
            patch.likely_relevant_when,
        ),
        out.issue_tracking == replaced(service.issue_tracking, patch.issue_tracking),
        out.docs == replaced(service.docs, patch.docs),
        out.understand_anything == match patch.understand_anything {
            Some(u) => Some(u),
            None => service.understand_anything,
        },
        out.deploy == match patch.deploy {
            Some(d) => Some(d),
            None => service.deploy,
        },
        forall|k: Seq<char>| #[trigger] out.commands.spec_get(k) == merged_command(
            service.commands,
            patch.commands,
            k,
        ),
{
    let mut s = service;
    if let Some(v) = patch.name {
        s.name = v;
    }
    if let Some(v) = patch.description {
        s.description = v;
    }
    if let Some(v) = patch.team {
        s.team = v;
    }
    if let Some(v) = patch.products {
        s.products = v;
    }
    if let Some(v) = patch.owns {
        s.owns = v;
    }
    if let Some(v) = patch.likely_relevant_when {
        s.likely_relevant_when = v;
    }
    if let Some(v) = patch.issue_tracking {
        s.issue_tracking = v;
    }
    if let Some(v) = patch.docs {
        s.docs = v;
    }
    if let Some(v) = patch.understand_anything {
        s.understand_anything = Some(v);
    }
    if let Some(v) = patch.deploy {
        s.deploy = Some(v);
    }
    if let Some(pairs) = patch.commands {
        merge_commands(&mut s.commands, pairs);
    }
    s
}

/// Looks up one catalog entry by id.
pub struct CatalogGetInput {
    pub id: String,
}

/// A command that takes no input.
pub struct EmptyInput {}

pub struct CatalogValidateCommand;

impl CommandInfo for CatalogValidateCommand {
    fn id(&self) -> (s: &'static str)
        ensures
            s@ == "catalog.validate"@,
    {
        "catalog.validate"
    }

    fn description(&self) -> (s: &'static str)
        ensures
            s@ == "Validate all catalog files."@,
    {
        "Validate all catalog files."
    }
}

pub struct CatalogServiceAddCommand;

impl CommandInfo for CatalogServiceAddCommand {
    fn id(&self) -> (s: &'static str)
        ensures
            s@ == "catalog.service.add"@,
    {
        "catalog.service.add"
    }

    fn description(&self) -> (s: &'static str)
        ensures
            s@ == "Add a service to the catalog as a separate file."@,
    {
        "Add a service to the catalog as a separate file."
    }
}

pub struct CatalogServiceUpdateCommand;

impl CommandInfo for CatalogServiceUpdateCommand {
    fn id(&self) -> (s: &'static str)
        ensures
            s@ == "catalog.service.update"@,
    {
        "catalog.service.update"
    }

    fn description(&self) -> (s: &'static str)
        ensures
            s@ == "Strict partial-merge patch into a service catalog entry; re-validates the catalog."@,
    {
        "Strict partial-merge patch into a service catalog entry; re-validates the catalog."
    }
}

pub struct CatalogServiceGetCommand;

impl CommandInfo for CatalogServiceGetCommand {
    fn id(&self) -> (s: &'static str)
        ensures
            s@ == "catalog.service.get"@,
    {
        "catalog.service.get"
    }

    fn description(&self) -> (s: &'static str)
        ensures
            s@ == "Retrieve a service catalog by ID."@,
    {
        "Retrieve a service catalog by ID."
    }
}

pub struct CatalogServiceListCommand;

impl CommandInfo for CatalogServiceListCommand {
    fn id(&self) -> (s: &'static str)
        ensures
            s@ == "catalog.service.list"@,
    {
        "catalog.service.list"
    }

    fn description(&self) -> (s: &'static str)
        ensures
            s@ == "List all service catalogs."@,
    {
        "List all service catalogs."
    }
}

pub struct CatalogProductAddCommand;

impl CommandInfo for CatalogProductAddCommand {
    fn id(&self) -> (s: &'static str)
        ensures
            s@ == "catalog.product.add"@,
    {
        "catalog.product.add"
    }

    fn description(&self) -> (s: &'static str)
        ensures
            s@ == "Add a product to the catalog."@,
    {
        "Add a product to the catalog."
    }
}

pub struct CatalogProductGetCommand;

impl CommandInfo for CatalogProductGetCommand {
    fn id(&self) -> (s: &'static str)
        ensures
            s@ == "catalog.product.get"@,
    {
        "catalog.product.get"
    }

    fn description(&self) -> (s: &'static str)
        ensures
            s@ == "Retrieve a product catalog by ID."@,
    {
        "Retrieve a product catalog by ID."
    }
}

pub struct CatalogProductListCommand;

impl CommandInfo for CatalogProductListCommand {
    fn id(&self) -> (s: &'static str)
        ensures
            s@ == "catalog.product.list"@,
    {
        "catalog.product.list"
    }

    fn description(&self) -> (s: &'static str)
        ensures
            s@ == "List all product catalogs."@,
    {
        "List all product catalogs."
    }
}

pub struct CatalogTeamAddCommand;

impl CommandInfo for CatalogTeamAddCommand {
    fn id(&self) -> (s: &'static str)
        ensures
            s@ == "catalog.team.add"@,
    {
        "catalog.team.add"
    }

    fn description(&self) -> (s: &'static str)
        ensures
            s@ == "Add a team to the catalog."@,
    {
        "Add a team to the catalog."
    }
}

pub struct CatalogTeamGetCommand;

impl CommandInfo for CatalogTeamGetCommand {
    fn id(&self) -> (s: &'static str)
        ensures
            s@ == "catalog.team.get"@,
    {
        "catalog.team.get"
    }

    fn description(&self) -> (s: &'static str)
        ensures
            s@ == "Retrieve a team catalog by ID."@,
    {
        "Retrieve a team catalog by ID."
    }
}

pub struct CatalogTeamListCommand;

impl CommandInfo for CatalogTeamListCommand {
    fn id(&self) -> (s: &'static str)
        ensures
            s@ == "catalog.team.list"@,
    {
        "catalog.team.list"
    }

    fn description(&self) -> (s: &'static str)
        ensures
            s@ == "List all team catalogs."@,
    {
        "List all team catalogs."
    }
}

pub struct ContextResolveCommand;

impl CommandInfo for ContextResolveCommand {
    fn id(&self) -> (s: &'static str)
        ensures
            s@ == "context.resolve"@,
    {
        "context.resolve"
    }

    fn description(&self) -> (s: &'static str)
        ensures
            s@ == "Resolve products, recommended services, and knowledge sources based on a query."@,
    {
        "Resolve products, recommended services, and knowledge sources based on a query."
    }
}

} // verus!
