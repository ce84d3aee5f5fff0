//! Production extension rules: the form of `p:path` attributes, the UUIDs
//! the extension requires, their form and their uniqueness.
use crate::error::{self, Error, Kind, Site};
use crate::model::{self, Component, Extension, Model, Object, ParserConfig};
use crate::text;
use vstd::prelude::*;

verus! {

// ---------------------------------------------------------------------------
// Path rules
// ---------------------------------------------------------------------------

/// The index just after the last `/` of `p`, or 0 where it has none.
pub open spec fn filename_start(p: Seq<char>) -> int {
    if exists|i: int| 0 <= i < p.len() && p[i] == '/' {
        (choose|i: int| 0 <= i < p.len() && p[i] == '/' && forall|j: int| i < j < p.len() ==> p[j] != '/')
            + 1
    } else {
        0
    }
}

/// A production path is absolute, without `..`, names a file whose name does
/// not start with `.`, and ends in `.model`.
pub open spec fn path_finding(site: Site, p: Seq<char>) -> error::Finding {
    if !(p.len() > 0 && p[0] == '/') {
        error::found_text(Kind::ProductionPathNotAbsolute { site }, p)
    } else if text::has_substring(p, ".."@) {
        error::found_text(Kind::ProductionPathParent { site }, p)
    } else if p.last() == '/' {
        error::found_text(Kind::ProductionPathTrailingSlash { site }, p)
    } else if filename_start(p) < p.len() && p[filename_start(p)] == '.' {
        error::found_text(Kind::ProductionPathHidden { site }, p)
    } else if !text::ends_with(p, ".model"@) {
        error::found_text(Kind::ProductionPathNotModel { site }, p)
    } else {
        None
    }
}

/// A production path must not name the package's relationship parts or its
/// content types part.
#[verifier::opaque]
pub open spec fn opc_finding(site: Site, p: Seq<char>) -> error::Finding {
    if text::starts_with(p, "/_rels/"@) || p == "/_rels"@ {
        error::found_text(Kind::ProductionPathRels { site }, p)
    } else if p == "/[Content_Types].xml"@ {
        error::found_text(Kind::ProductionPathContentTypes { site }, p)
    } else {
        None
    }
}

/// Which rules the production paths are checked against.
#[derive(Clone, Copy, Debug, PartialEq, Eq, Structural)]
pub enum PathRule {
    /// The form of the path.
    Format,
    /// The form of the path, and a UUID beside each component path.
    FormatWithUuid,
    /// No package-internal part.
    Opc,
}

pub open spec fn rule_finding(rule: PathRule, site: Site, p: Seq<char>) -> error::Finding {
    match rule {
        PathRule::Opc => opc_finding(site, p),
        _ => path_finding(site, p),
    }
}

pub open spec fn component_path_finding(rule: PathRule, o: Object, k: int, c: Component) -> error::Finding {
    match c.production {
        Some(pi) => if rule == PathRule::FormatWithUuid && pi.path is Some && pi.uuid is None {
            error::found(Kind::ComponentPathWithoutUuid { object: o.id, component: k as usize })
        } else {
            match pi.path {
                Some(p) => rule_finding(
                    rule,
                    Site::Component { object: o.id, component: k as usize },
                    p@,
                ),
                None => None,
            }
        },
        None => None,
    }
}

pub open spec fn component_path_check(rule: PathRule, o: Object) -> spec_fn(int) -> error::Finding {
    |k: int| component_path_finding(rule, o, k, o.components@[k])
}

pub open spec fn object_path_finding(rule: PathRule, o: Object) -> error::Finding {
    error::either(
        match o.production {
            Some(pi) => match pi.path {
                Some(p) => rule_finding(rule, Site::Object { object: o.id }, p@),
                None => None,
            },
            None => None,
        },
        error::first(o.components@.len() as int, component_path_check(rule, o)),
    )
}

pub open spec fn object_path_check(rule: PathRule, m: Model) -> spec_fn(int) -> error::Finding {
    |i: int| object_path_finding(rule, m.resources.objects@[i])
}

pub open spec fn item_path_check(rule: PathRule, m: Model) -> spec_fn(int) -> error::Finding {
    |k: int|
        match m.build.items@[k].production_path {
            Some(p) => rule_finding(rule, Site::BuildItem { item: k as usize }, p@),
            None => None,
        }
}

/// The production paths of objects, their components, and build items, in
/// that order, checked against `rule`.
pub open spec fn paths_finding(rule: PathRule, m: Model) -> error::Finding {
    error::either(
        error::first(m.resources.objects@.len() as int, object_path_check(rule, m)),
        error::first(m.build.items@.len() as int, item_path_check(rule, m)),
    )
}

fn check_path_format(site: Site, path: &String) -> (r: Result<(), Error>)
    ensures
        error::reports(r, path_finding(site, path@)),
{
    reveal(path_finding);
    let v = text::chars_of(path.as_str());
    if !(v.len() > 0 && v[0] == '/') {
        return error::fail_text(Kind::ProductionPathNotAbsolute { site }, path.clone());
    }
    let dots = text::chars_of("..");
    proof {
        reveal_strlit("..");
    }
    if text::contains_substring(&v, &dots) {
        return error::fail_text(Kind::ProductionPathParent { site }, path.clone());
    }
    if v[v.len() - 1] == '/' {
        return error::fail_text(Kind::ProductionPathTrailingSlash { site }, path.clone());
    }
    let mut q: usize = v.len() - 1;
    while v[q] != '/'
        invariant
            q < v@.len(),
            v@[0] == '/',
            forall|j: int| q < j < v@.len() ==> v@[j] != '/',
        decreases q,
    {
        q -= 1;
    }
    proof {
        let p = path@;
        assert(p[q as int] == '/');
        let c = choose|i: int| 0 <= i < p.len() && p[i] == '/' && forall|j: int| i < j < p.len() ==> p[j] != '/';
        assert(c == q) by {
            if c < q {
                assert(p[q as int] != '/');
            }
            if c > q {
                assert(p[c] != '/');
            }
        }
        assert(filename_start(p) == q + 1);
    }
    if q + 1 < v.len() && v[q + 1] == '.' {
        return error::fail_text(Kind::ProductionPathHidden { site }, path.clone());
    }
    let suffix = text::chars_of(".model");
    if !text::finishes_with(&v, &suffix) {
        return error::fail_text(Kind::ProductionPathNotModel { site }, path.clone());
    }
    Ok(())
}

fn check_path_opc(site: Site, path: &String) -> (r: Result<(), Error>)
    ensures
        error::reports(r, opc_finding(site, path@)),
{
    reveal(opc_finding);
    let v = text::chars_of(path.as_str());
    let rels_dir = text::chars_of("/_rels/");
    let rels = text::chars_of("/_rels");
    let types = text::chars_of("/[Content_Types].xml");
    if text::begins_with(&v, &rels_dir) || text::same_chars(&v, &rels) {
        return error::fail_text(Kind::ProductionPathRels { site }, path.clone());
    }
    if text::same_chars(&v, &types) {
        return error::fail_text(Kind::ProductionPathContentTypes { site }, path.clone());
    }
    Ok(())
}

fn check_rule(rule: PathRule, site: Site, path: &String) -> (r: Result<(), Error>)
    ensures
        error::reports(r, rule_finding(rule, site, path@)),
{
    match rule {
        PathRule::Opc => check_path_opc(site, path),
        _ => check_path_format(site, path),
    }
}

fn check_object_paths(rule: PathRule, o: &Object) -> (r: Result<(), Error>)
    ensures
        error::reports(r, object_path_finding(rule, *o)),
{
    if let Some(pi) = &o.production {
        if let Some(p) = &pi.path {
            let r = check_rule(rule, Site::Object { object: o.id }, p);
            if r.is_err() {
                return r;
            }
        }
    }
    let comps = &o.components;
    let ghost n = comps@.len() as int;
    let mut k: usize = 0;
    while k < comps.len()
        invariant
            k <= comps@.len(),
            n == comps@.len(),
            comps@ == o.components@,
            (match o.production {
                Some(pi) => match pi.path {
                    Some(p) => rule_finding(rule, Site::Object { object: o.id }, p@),
                    None => None,
                },
                None => None,
            }) is None,
            error::first(n, component_path_check(rule, *o)) == error::first_from(
                n,
                component_path_check(rule, *o),
                k as int,
            ),
        decreases comps@.len() - k,
    {
        let c = &comps[k];
        if let Some(pi) = &c.production {
            if rule == PathRule::FormatWithUuid && pi.path.is_some() && pi.uuid.is_none() {
                return error::fail(Kind::ComponentPathWithoutUuid { object: o.id, component: k });
            }
            if let Some(p) = &pi.path {
                let r = check_rule(rule, Site::Component { object: o.id, component: k }, p);
                if r.is_err() {
                    return r;
                }
            }
        }
        k += 1;
    }
    Ok(())
}

fn check_item_path(rule: PathRule, m: &Model, k: usize) -> (r: Result<(), Error>)
    requires
        k < m.build.items@.len(),
    ensures
        error::reports(r, item_path_check(rule, *m)(k as int)),
{
    match &m.build.items[k].production_path {
        Some(p) => check_rule(rule, Site::BuildItem { item: k }, p),
        None => Ok(()),
    }
}

fn check_object_paths_all(rule: PathRule, m: &Model) -> (r: Result<(), Error>)
    ensures
        error::reports(r, error::first(m.resources.objects@.len() as int, object_path_check(rule, *m))),
{
    let objs = &m.resources.objects;
    let ghost n = objs@.len() as int;
    let mut i: usize = 0;
    while i < objs.len()
        invariant
            i <= objs@.len(),
            n == objs@.len(),
            objs@ == m.resources.objects@,
            error::first(n, object_path_check(rule, *m)) == error::first_from(
                n,
                object_path_check(rule, *m),
                i as int,
            ),
        decreases objs@.len() - i,
    {
        let r = check_object_paths(rule, &objs[i]);
        if r.is_err() {
            return r;
        }
        i += 1;
    }
    Ok(())
}

fn check_item_paths_all(rule: PathRule, m: &Model) -> (r: Result<(), Error>)
    ensures
        error::reports(r, error::first(m.build.items@.len() as int, item_path_check(rule, *m))),
{
    let items = &m.build.items;
    let ghost ni = items@.len() as int;
    let mut k: usize = 0;
    while k < items.len()
        invariant
            k <= items@.len(),
            ni == items@.len(),
            items@ == m.build.items@,
            error::first(ni, item_path_check(rule, *m)) == error::first_from(
                ni,
                item_path_check(rule, *m),
                k as int,
            ),
        decreases items@.len() - k,
    {
        let r = check_item_path(rule, m, k);
        if r.is_err() {
            return r;
        }
        k += 1;
    }
    Ok(())
}

fn check_paths(rule: PathRule, m: &Model) -> (r: Result<(), Error>)
    ensures
        error::reports(r, paths_finding(rule, *m)),
{
    let r = check_object_paths_all(rule, m);
    if r.is_err() {
        return r;
    }
    check_item_paths_all(rule, m)
}

/// Checks the form of the production paths of objects, components and build
/// items.
pub fn validate_production_extension(model: &Model) -> (r: Result<(), Error>)
    ensures
        error::reports(r, paths_finding(PathRule::Format, *model)),
{
    check_paths(PathRule::Format, model)
}

/// Whether the model carries production attributes anywhere.
pub open spec fn uses_production_attributes(m: Model) -> bool {
    let objs = m.resources.objects@;
    let items = m.build.items@;
    ||| exists|i: int| 0 <= i < objs.len() && #[trigger] objs[i].production is Some
    ||| exists|i: int, k: int|
        0 <= i < objs.len() && 0 <= k < objs[i].components@.len()
            && #[trigger] objs[i].components@[k].production is Some
    ||| exists|k: int|
        0 <= k < items.len() && (#[trigger] items[k].production_uuid is Some
            || items[k].production_path is Some)
    ||| m.build.production_uuid is Some
}

/// Production paths are well formed, component paths come with a UUID, and
/// production attributes need the extension declared or among `supported`.
pub open spec fn production_support_finding(m: Model, supported: Seq<Extension>) -> error::Finding {
    error::either(
        paths_finding(PathRule::FormatWithUuid, m),
        if uses_production_attributes(m) && !model::extension_listed(
            m.required_extensions@,
            Extension::Production,
        ) && !model::extension_listed(supported, Extension::Production) {
            error::found(Kind::ProductionNotDeclared)
        } else {
            None
        },
    )
}

/// The production rules under the extensions that `config` supports.
pub open spec fn production_with_config_finding(m: Model, config: ParserConfig) -> error::Finding {
    production_support_finding(m, config.supported_extensions@)
}

fn has_production_attributes(m: &Model) -> (r: bool)
    ensures
        r == uses_production_attributes(*m),
{
    let objs = &m.resources.objects;
    let mut i: usize = 0;
    while i < objs.len()
        invariant
            i <= objs@.len(),
            objs@ == m.resources.objects@,
            forall|j: int| 0 <= j < i ==> #[trigger] objs@[j].production is None,
            forall|j: int, k: int|
                0 <= j < i && 0 <= k < objs@[j].components@.len() ==> #[trigger] objs@[j].components@[k].production is None,
        decreases objs@.len() - i,
    {
        let o = &objs[i];
        if o.production.is_some() {
            return true;
        }
        let mut k: usize = 0;
        while k < o.components.len()
            invariant
                k <= o.components@.len(),
                i < objs@.len(),
                *o == objs@[i as int],
                objs@ == m.resources.objects@,
                forall|q: int| 0 <= q < k ==> #[trigger] o.components@[q].production is None,
            decreases o.components@.len() - k,
        {
            if o.components[k].production.is_some() {
                assert(objs@[i as int].components@[k as int].production is Some);
                return true;
            }
            k += 1;
        }
        i += 1;
    }
    let items = &m.build.items;
    let mut k: usize = 0;
    while k < items.len()
        invariant
            k <= items@.len(),
            items@ == m.build.items@,
            forall|q: int|
                0 <= q < k ==> #[trigger] items@[q].production_uuid is None && items@[q].production_path is None,
        decreases items@.len() - k,
    {
        if items[k].production_uuid.is_some() || items[k].production_path.is_some() {
            return true;
        }
        k += 1;
    }
    m.build.production_uuid.is_some()
}

/// Checks production paths, component UUIDs, and that production attributes
/// are declared in the model or supported by `config`.
pub fn validate_production_extension_with_config(model: &Model, config: &ParserConfig) -> (r:
    Result<(), Error>)
    ensures
        error::reports(r, production_with_config_finding(*model, *config)),
{
    let r = check_paths(PathRule::FormatWithUuid, model);
    if r.is_err() {
        return r;
    }
    let has_production = model::contains_extension(&model.required_extensions, Extension::Production);
    let config_supports = config.supports(&Extension::Production);
    if has_production_attributes(model) && !has_production && !config_supports {
        return error::fail(Kind::ProductionNotDeclared);
    }
    Ok(())
}

/// Checks that production paths name no package-internal part.
pub fn validate_production_paths(model: &Model) -> (r: Result<(), Error>)
    ensures
        error::reports(r, paths_finding(PathRule::Opc, *model)),
{
    check_paths(PathRule::Opc, model)
}

// ---------------------------------------------------------------------------
// Required UUIDs
// ---------------------------------------------------------------------------

pub open spec fn item_uuid_check(m: Model) -> spec_fn(int) -> error::Finding {
    |k: int|
        if m.build.items@[k].production_uuid is None {
            error::found(Kind::BuildItemWithoutUuid { item: k as usize })
        } else {
            None
        }
}

pub open spec fn object_uuid_check(m: Model) -> spec_fn(int) -> error::Finding {
    |i: int| {
        let o = m.resources.objects@[i];
        if o.production matches Some(pi) && pi.uuid is Some {
            None
        } else {
            error::found(Kind::ObjectWithoutUuid { object: o.id })
        }
    }
}

/// Where the model requires the production extension, the build (when it has
/// items), every build item and every object carry a UUID.
pub open spec fn uuids_required_finding(m: Model) -> error::Finding {
    if !model::extension_listed(m.required_extensions@, Extension::Production) {
        None
    } else if m.build.items@.len() > 0 && m.build.production_uuid is None {
        error::found(Kind::BuildWithoutUuid)
    } else {
        error::either(
            error::first(m.build.items@.len() as int, item_uuid_check(m)),
            error::first(m.resources.objects@.len() as int, object_uuid_check(m)),
        )
    }
}

/// Checks the UUIDs that the production extension requires.
pub fn validate_production_uuids_required(model: &Model) -> (r: Result<(), Error>)
    ensures
        error::reports(r, uuids_required_finding(*model)),
{
    if !model::contains_extension(&model.required_extensions, Extension::Production) {
        return Ok(());
    }
    let items = &model.build.items;
    if items.len() > 0 && model.build.production_uuid.is_none() {
        return error::fail(Kind::BuildWithoutUuid);
    }
    let ghost ni = items@.len() as int;
    let mut k: usize = 0;
    while k < items.len()
        invariant
            k <= items@.len(),
            ni == items@.len(),
            items@ == model.build.items@,
            model::extension_listed(model.required_extensions@, Extension::Production),
            !(model.build.items@.len() > 0 && model.build.production_uuid is None),
            error::first(ni, item_uuid_check(*model)) == error::first_from(
                ni,
                item_uuid_check(*model),
                k as int,
            ),
        decreases items@.len() - k,
    {
        if items[k].production_uuid.is_none() {
            return error::fail(Kind::BuildItemWithoutUuid { item: k });
        }
        k += 1;
    }
    let objs = &model.resources.objects;
    let ghost n = objs@.len() as int;
    let mut i: usize = 0;
    while i < objs.len()
        invariant
            i <= objs@.len(),
            n == objs@.len(),
            objs@ == model.resources.objects@,
            ni == model.build.items@.len(),
            model::extension_listed(model.required_extensions@, Extension::Production),
            !(model.build.items@.len() > 0 && model.build.production_uuid is None),
            error::first(ni, item_uuid_check(*model)) is None,
            error::first(n, object_uuid_check(*model)) == error::first_from(
                n,
                object_uuid_check(*model),
                i as int,
            ),
        decreases objs@.len() - i,
    {
        let o = &objs[i];
        let has_uuid = match &o.production {
            Some(pi) => pi.uuid.is_some(),
            None => false,
        };
        if !has_uuid {
            return error::fail(Kind::ObjectWithoutUuid { object: o.id });
        }
        i += 1;
    }
    Ok(())
}


// ---------------------------------------------------------------------------
// UUID form and uniqueness
// ---------------------------------------------------------------------------

/// The UUIDs of the first `n` components of `o`, with where they stand.
pub open spec fn component_uuid_sites(o: Object, n: int) -> Seq<(Site, Seq<char>)>
    decreases n,
{
    if n <= 0 {
        Seq::empty()
    } else {
        let rest = component_uuid_sites(o, n - 1);
        match o.components@[n - 1].production {
            Some(pi) => match pi.uuid {
                Some(u) => rest.push(
                    (Site::Component { object: o.id, component: (n - 1) as usize }, u@),
                ),
                None => rest,
            },
            None => rest,
        }
    }
}

/// The UUID of an object itself, if it has one.
pub open spec fn own_uuid_site(o: Object) -> Seq<(Site, Seq<char>)> {
    match o.production {
        Some(pi) => match pi.uuid {
            Some(u) => seq![(Site::Object { object: o.id }, u@)],
            None => Seq::empty(),
        },
        None => Seq::empty(),
    }
}

/// The UUIDs of an object and then of its components.
pub open spec fn object_uuid_sites(o: Object) -> Seq<(Site, Seq<char>)> {
    own_uuid_site(o) + component_uuid_sites(o, o.components@.len() as int)
}

/// The UUIDs of the first `n` objects and their components.
pub open spec fn objects_uuid_sites(objs: Seq<Object>, n: int) -> Seq<(Site, Seq<char>)>
    decreases n,
{
    if n <= 0 {
        Seq::empty()
    } else {
        objects_uuid_sites(objs, n - 1) + object_uuid_sites(objs[n - 1])
    }
}

/// The UUIDs of the first `n` build items.
pub open spec fn item_uuid_sites(items: Seq<model::BuildItem>, n: int) -> Seq<(Site, Seq<char>)>
    decreases n,
{
    if n <= 0 {
        Seq::empty()
    } else {
        let rest = item_uuid_sites(items, n - 1);
        match items[n - 1].production_uuid {
            Some(u) => rest.push((Site::BuildItem { item: (n - 1) as usize }, u@)),
            None => rest,
        }
    }
}

/// Every production UUID of the model, in document order: the build's, the
/// build items', then each object's followed by its components'.
pub open spec fn uuid_sites(m: Model) -> Seq<(Site, Seq<char>)> {
    (match m.build.production_uuid {
        Some(u) => seq![(Site::Build, u@)],
        None => Seq::empty(),
    }) + item_uuid_sites(m.build.items@, m.build.items@.len() as int) + objects_uuid_sites(
        m.resources.objects@,
        m.resources.objects@.len() as int,
    )
}

pub open spec fn view_sites(v: Seq<(Site, String)>) -> Seq<(Site, Seq<char>)> {
    v.map_values(|e: (Site, String)| (e.0, e.1@))
}

proof fn lemma_view_sites_push(v: Seq<(Site, String)>, x: (Site, String))
    ensures
        view_sites(v.push(x)) == view_sites(v).push((x.0, x.1@)),
{
    assert(view_sites(v.push(x)) =~= view_sites(v).push((x.0, x.1@)));
}

fn push_site(out: &mut Vec<(Site, String)>, site: Site, u: &String)
    ensures
        view_sites(final(out)@) == view_sites(old(out)@).push((site, u@)),
{
    let c = u.clone();
    proof {
        lemma_view_sites_push(out@, (site, c));
    }
    out.push((site, c));
}

/// Collects the production UUIDs of the model in document order.
pub fn collect_uuids(m: &Model) -> (v: Vec<(Site, String)>)
    ensures
        view_sites(v@) == uuid_sites(*m),
{
    let mut out: Vec<(Site, String)> = Vec::new();
    if let Some(u) = &m.build.production_uuid {
        push_site(&mut out, Site::Build, u);
    }
    let ghost head = view_sites(out@);
    assert(head =~= (match m.build.production_uuid {
        Some(u) => seq![(Site::Build, u@)],
        None => Seq::<(Site, Seq<char>)>::empty(),
    }));
    let items = &m.build.items;
    let mut k: usize = 0;
    while k < items.len()
        invariant
            k <= items@.len(),
            items@ == m.build.items@,
            view_sites(out@) == head + item_uuid_sites(items@, k as int),
        decreases items@.len() - k,
    {
        if let Some(u) = &items[k].production_uuid {
            push_site(&mut out, Site::BuildItem { item: k }, u);
        }
        proof {
            assert(view_sites(out@) =~= head + item_uuid_sites(items@, k + 1));
        }
        k += 1;
    }
    let ghost head2 = view_sites(out@);
    let objs = &m.resources.objects;
    let mut i: usize = 0;
    while i < objs.len()
        invariant
            i <= objs@.len(),
            objs@ == m.resources.objects@,
            view_sites(out@) == head2 + objects_uuid_sites(objs@, i as int),
        decreases objs@.len() - i,
    {
        let o = &objs[i];
        let ghost before = view_sites(out@);
        if let Some(pi) = &o.production {
            if let Some(u) = &pi.uuid {
                push_site(&mut out, Site::Object { object: o.id }, u);
            }
        }
        let ghost mid = view_sites(out@);
        assert(mid =~= before + own_uuid_site(*o));
        let mut c: usize = 0;
        while c < o.components.len()
            invariant
                c <= o.components@.len(),
                view_sites(out@) == mid + component_uuid_sites(*o, c as int),
            decreases o.components@.len() - c,
        {
            if let Some(pi) = &o.components[c].production {
                if let Some(u) = &pi.uuid {
                    push_site(&mut out, Site::Component { object: o.id, component: c }, u);
                }
            }
            proof {
                assert(view_sites(out@) =~= mid + component_uuid_sites(*o, c + 1));
            }
            c += 1;
        }
        proof {
            assert(objs@[i as int] == *o);
            assert(view_sites(out@) =~= head2 + objects_uuid_sites(objs@, i + 1));
        }
        i += 1;
    }
    proof {
        assert(view_sites(out@) =~= uuid_sites(*m));
    }
    out
}

/// Whether `u` has a hyphen at position `i`.
pub open spec fn dash_at(u: Seq<char>, i: int) -> bool {
    i < u.len() && u[i] == '-'
}

pub open spec fn uuid_char_check(site: Site, u: Seq<char>) -> spec_fn(int) -> error::Finding {
    |idx: int|
        if idx == 8 || idx == 13 || idx == 18 || idx == 23 || text::is_hex_digit(u[idx]) {
            None
        } else {
            error::found_text(Kind::UuidNotHex { site, ch: u[idx], position: idx as usize }, u)
        }
}

/// A UUID has 36 bytes, hyphens at positions 8, 13, 18 and 23, and
/// hexadecimal digits elsewhere.
pub open spec fn uuid_format_finding(site: Site, u: Seq<char>) -> error::Finding {
    if text::byte_len(u) != 36 {
        error::found_text(Kind::UuidLength { site }, u)
    } else if !(dash_at(u, 8) && dash_at(u, 13) && dash_at(u, 18) && dash_at(u, 23)) {
        error::found_text(Kind::UuidHyphens { site }, u)
    } else {
        error::first(u.len() as int, uuid_char_check(site, u))
    }
}

pub open spec fn uuid_format_check(m: Model) -> spec_fn(int) -> error::Finding {
    |k: int| uuid_format_finding(uuid_sites(m)[k].0, uuid_sites(m)[k].1)
}

pub open spec fn uuid_formats_finding(m: Model) -> error::Finding {
    error::first(uuid_sites(m).len() as int, uuid_format_check(m))
}

fn check_uuid_format(site: Site, uuid: &String) -> (r: Result<(), Error>)
    ensures
        error::reports(r, uuid_format_finding(site, uuid@)),
{
    let u = text::chars_of(uuid.as_str());
    if !text::has_byte_len(&u, 36) {
        return error::fail_text(Kind::UuidLength { site }, uuid.clone());
    }
    let dashes = u.len() > 8 && u[8] == '-' && u.len() > 13 && u[13] == '-' && u.len() > 18 && u[18]
        == '-' && u.len() > 23 && u[23] == '-';
    if !dashes {
        return error::fail_text(Kind::UuidHyphens { site }, uuid.clone());
    }
    let ghost n = u@.len() as int;
    let mut idx: usize = 0;
    while idx < u.len()
        invariant
            idx <= u@.len(),
            n == u@.len(),
            u@ == uuid@,
            text::byte_len(uuid@) == 36,
            dash_at(uuid@, 8) && dash_at(uuid@, 13) && dash_at(uuid@, 18) && dash_at(uuid@, 23),
            error::first(n, uuid_char_check(site, uuid@)) == error::first_from(
                n,
                uuid_char_check(site, uuid@),
                idx as int,
            ),
        decreases u@.len() - idx,
    {
        let ch = u[idx];
        if !(idx == 8 || idx == 13 || idx == 18 || idx == 23) && !text::hex_digit(ch) {
            return error::fail_text(Kind::UuidNotHex { site, ch, position: idx }, uuid.clone());
        }
        idx += 1;
    }
    Ok(())
}

/// Checks the form of every production UUID.
pub fn validate_uuid_formats(model: &Model) -> (r: Result<(), Error>)
    ensures
        error::reports(r, uuid_formats_finding(*model)),
{
    let sites = collect_uuids(model);
    let ghost n = sites@.len() as int;
    let mut k: usize = 0;
    while k < sites.len()
        invariant
            k <= sites@.len(),
            n == sites@.len(),
            view_sites(sites@) == uuid_sites(*model),
            error::first(n, uuid_format_check(*model)) == error::first_from(
                n,
                uuid_format_check(*model),
                k as int,
            ),
        decreases sites@.len() - k,
    {
        let r = check_uuid_format(sites[k].0, &sites[k].1);
        if r.is_err() {
            return r;
        }
        k += 1;
    }
    Ok(())
}

/// UUID `k` must not repeat an earlier one.
pub open spec fn duplicate_uuid_finding(m: Model, k: int) -> error::Finding {
    let s = uuid_sites(m);
    if exists|j: int| 0 <= j < k && #[trigger] s[j].1 == s[k].1 {
        error::found_text(Kind::DuplicateUuid { site: s[k].0 }, s[k].1)
    } else {
        None
    }
}

pub open spec fn duplicate_uuid_check(m: Model) -> spec_fn(int) -> error::Finding {
    |k: int| duplicate_uuid_finding(m, k)
}

pub open spec fn duplicate_uuids_finding(m: Model) -> error::Finding {
    error::first(uuid_sites(m).len() as int, duplicate_uuid_check(m))
}

/// Checks that no production UUID occurs twice.
pub fn validate_duplicate_uuids(model: &Model) -> (r: Result<(), Error>)
    ensures
        error::reports(r, duplicate_uuids_finding(*model)),
{
    let sites = collect_uuids(model);
    let ghost n = sites@.len() as int;
    let mut k: usize = 0;
    while k < sites.len()
        invariant
            k <= sites@.len(),
            n == sites@.len(),
            view_sites(sites@) == uuid_sites(*model),
            error::first(n, duplicate_uuid_check(*model)) == error::first_from(
                n,
                duplicate_uuid_check(*model),
                k as int,
            ),
        decreases sites@.len() - k,
    {
        let mut j: usize = 0;
        while j < k
            invariant
                j <= k < sites@.len(),
                n == sites@.len(),
                view_sites(sites@) == uuid_sites(*model),
                error::first(n, duplicate_uuid_check(*model)) == error::first_from(
                    n,
                    duplicate_uuid_check(*model),
                    k as int,
                ),
                forall|q: int| 0 <= q < j ==> sites@[q].1@ != sites@[k as int].1@,
            decreases k - j,
        {
            if sites[j].1 == sites[k].1 {
                proof {
                    assert(uuid_sites(*model)[j as int].1 == uuid_sites(*model)[k as int].1);
                }
                return error::fail_text(Kind::DuplicateUuid { site: sites[k].0 }, sites[k].1.clone());
            }
            j += 1;
        }
        proof {
            assert forall|q: int| 0 <= q < k implies #[trigger] uuid_sites(*model)[q].1 != uuid_sites(
                *model,
            )[k as int].1 by {
                assert(uuid_sites(*model)[q].1 == sites@[q].1@);
            }
        }
        k += 1;
    }
    Ok(())
}

/// Chains of component references across model parts are not checked: the
/// referenced parts are not loaded here.
pub fn validate_component_chain(model: &Model) -> (r: Result<(), Error>)
    ensures
        r is Ok,
{
    Ok(())
}

} // verus!
