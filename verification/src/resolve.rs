//! The schema usage resolver: finds which registered schema names an
//! operation's metadata refers to, resolves request bodies and responses
//! against the schema registry, and extracts `$ref` targets from raw
//! schema text for the transitive closure.

use vstd::prelude::*;

use crate::SchemaRegistration;
use crate::openapi::{MediaType, MediaTypeView, ReferenceOr, ReferenceOrView, RequestBody,
    RequestBodyView, PropertySchema, PropertySchemaView, Response, ResponseView, Schema,
    SchemaView, pair_views};
use crate::strings::{contains_sub, find_char_from, find_sub_from, spec_contains, spec_find_char,
    spec_find_sub, spec_match_at, spec_split_str, spec_trim, spec_trim_char, spec_trim_end_char,
    spec_trim_start_char, spec_ends_with, split_str, starts_with, str_eq, str_len, substr, trim,
    trim_char, trim_end_char, trim_start_char, views_of, ends_with, char_at};
use crate::trusted::{decode_string_array, json_string_array, lowercase, lower_of};

verus! {

/// The views of the registry records.
pub open spec fn reg_views(v: Seq<SchemaRegistration>) -> Seq<(Seq<char>, Seq<char>)> {
    Seq::new(v.len(), |i: int| v[i]@)
}

/// Is some registry record named `n`?
pub open spec fn spec_reg_has(reg: Seq<(Seq<char>, Seq<char>)>, n: Seq<char>) -> bool {
    exists|j: int| 0 <= j < reg.len() && (#[trigger] reg[j]).0 == n
}

/// The schema text of the first registry record named `n`.
pub open spec fn spec_first_reg_text(
    reg: Seq<(Seq<char>, Seq<char>)>,
    n: Seq<char>,
    i: int,
) -> Option<Seq<char>>
    decreases reg.len() - i,
{
    if i < 0 || i >= reg.len() {
        None
    } else if reg[i].0 == n {
        Some(reg[i].1)
    } else {
        spec_first_reg_text(reg, n, i + 1)
    }
}

/// Is some registry record named `n`?
pub fn reg_has(registry: &Vec<SchemaRegistration>, n: &str) -> (r: bool)
    ensures
        r == spec_reg_has(reg_views(registry@), n@),
{
    let ghost greg = reg_views(registry@);
    let mut i: usize = 0;
    while i < registry.len()
        invariant
            greg == reg_views(registry@),
            i <= registry@.len(),
            forall|j: int| 0 <= j < i ==> (#[trigger] greg[j]).0 != n@,
        decreases registry@.len() - i,
    {
        if str_eq(registry[i].name.as_str(), n) {
            assert(spec_reg_has(greg, n@)) by {
                assert((greg[i as int]).0 == n@);
            }
            return true;
        }
        i = i + 1;
    }
    false
}

/// The schema text of the first registry record named `n`.
pub fn first_reg_text(registry: &Vec<SchemaRegistration>, n: &str) -> (r: Option<String>)
    ensures
        (match r {
            Some(t) => Some(t@),
            None => None,
        }) == spec_first_reg_text(reg_views(registry@), n@, 0),
{
    let ghost greg = reg_views(registry@);
    let mut i: usize = 0;
    while i < registry.len()
        invariant
            greg == reg_views(registry@),
            i <= registry@.len(),
            spec_first_reg_text(greg, n@, 0) == spec_first_reg_text(greg, n@, i as int),
        decreases registry@.len() - i,
    {
        if str_eq(registry[i].name.as_str(), n) {
            return Some(registry[i].schema_json.clone());
        }
        i = i + 1;
    }
    None
}

/// The literal marker that a raw schema text uses to refer to another
/// registered schema.
pub open spec fn spec_ref_pattern() -> Seq<char> {
    ("\"$ref\":\"#/components/schemas/")@
}

/// The schema names referred to in raw schema text from `from` on: after
/// each occurrence of the reference marker, the characters up to the next
/// double quote. The scan resumes right after the marker.
pub open spec fn spec_refs_in(s: Seq<char>, from: int) -> Seq<Seq<char>>
    decreases s.len() - from,
{
    if from < 0 || from > s.len() {
        Seq::empty()
    } else {
        match spec_find_sub(s, spec_ref_pattern(), from) {
            Some(i) => {
                let start = i + spec_ref_pattern().len();
                if from < start <= s.len() {
                    match spec_find_char(s, '"', start) {
                        Some(e) => seq![s.subrange(start, e)] + spec_refs_in(s, start),
                        None => spec_refs_in(s, start),
                    }
                } else {
                    Seq::empty()
                }
            },
            None => Seq::empty(),
        }
    }
}

/// The schema names referred to in raw schema text.
pub fn extract_schema_references(schema_json: &str) -> (r: Vec<String>)
    ensures
        views_of(r@) == spec_refs_in(schema_json@, 0),
{
    let pattern: &str = "\"$ref\":\"#/components/schemas/";
    let n = str_len(schema_json);
    let m = str_len(pattern);
    let mut refs: Vec<String> = Vec::new();
    let mut from: usize = 0;
    loop
        invariant
            n == schema_json@.len(),
            pattern@ == spec_ref_pattern(),
            m == spec_ref_pattern().len(),
            from <= n,
            views_of(refs@) + spec_refs_in(schema_json@, from as int) =~= spec_refs_in(
                schema_json@,
                0,
            ),
        decreases n - from,
    {
        match find_sub_from(schema_json, pattern, from) {
            Some(i) => {
                proof {
                    assert(i + m <= n);
                }
                let start = i + m;
                if !(from < start && start <= n) {
                    proof {
                        assert(views_of(refs@) =~= spec_refs_in(schema_json@, 0));
                    }
                    return refs;
                }
                match find_char_from(schema_json, '"', start) {
                    Some(e) => {
                        let piece = substr(schema_json, start, e);
                        proof {
                            assert(views_of(refs@.push(piece)) =~= views_of(refs@).push(piece@));
                            assert(views_of(refs@) + (seq![piece@] + spec_refs_in(
                                schema_json@,
                                start as int,
                            )) =~= (views_of(refs@) + seq![piece@]) + spec_refs_in(
                                schema_json@,
                                start as int,
                            ));
                        }
                        refs.push(piece);
                        from = start;
                    },
                    None => {
                        from = start;
                    },
                }
            },
            None => {
                proof {
                    assert(views_of(refs@) =~= spec_refs_in(schema_json@, 0));
                }
                return refs;
            },
        }
    }
}

/// The `$ref` target for a registered schema name.
pub open spec fn spec_ref_target(n: Seq<char>) -> Seq<char> {
    ("#/components/schemas/")@ + n
}

/// The `$ref` target for a registered schema name.
pub fn ref_target(n: &str) -> (r: String)
    ensures
        r@ == spec_ref_target(n@),
{
    crate::emit::glue("#/components/schemas/", n.to_owned())
}

/// The explicit schema named by the first `Type: ` item whose target is
/// registered.
pub open spec fn spec_explicit_type(
    items: Seq<Seq<char>>,
    reg: Seq<(Seq<char>, Seq<char>)>,
    i: int,
) -> Option<Seq<char>>
    decreases items.len() - i,
{
    if i < 0 || i >= items.len() {
        None
    } else {
        let it = items[i];
        if spec_match_at(it, ("Type: ")@, 0) && spec_reg_has(
            reg,
            it.subrange(("Type: ")@.len() as int, it.len() as int),
        ) {
            Some(it.subrange(("Type: ")@.len() as int, it.len() as int))
        } else {
            spec_explicit_type(items, reg, i + 1)
        }
    }
}

/// The first registered name contained anywhere in the raw field text.
pub open spec fn spec_contained_name(
    reg: Seq<(Seq<char>, Seq<char>)>,
    raw: Seq<char>,
    i: int,
) -> Option<Seq<char>>
    decreases reg.len() - i,
{
    if i < 0 || i >= reg.len() {
        None
    } else if spec_contains(raw, reg[i].0) {
        Some(reg[i].0)
    } else {
        spec_contained_name(reg, raw, i + 1)
    }
}

/// One pass over the request-body items: a `Content-Type:` line keeps the
/// JSON content type, a `- field (type): description` line adds one
/// property, and any other non-empty line becomes the body description,
/// the last one winning.
pub open spec fn spec_body_fold(
    items: Seq<Seq<char>>,
    i: int,
    ct: Seq<char>,
    desc: Seq<char>,
    props: Seq<(Seq<char>, PropertySchemaView)>,
) -> (Seq<char>, Seq<char>, Seq<(Seq<char>, PropertySchemaView)>)
    decreases items.len() - i,
{
    if i < 0 || i >= items.len() {
        (ct, desc, props)
    } else {
        let it = items[i];
        if spec_contains(it, ("Content-Type:")@) {
            let ct2 = if spec_contains(it, ("application/json")@) {
                ("application/json")@
            } else {
                ct
            };
            spec_body_fold(items, i + 1, ct2, desc, props)
        } else if spec_match_at(it, ("- ")@, 0) {
            let fd = it.subrange(("- ")@.len() as int, it.len() as int);
            match spec_find_char(fd, ':', 0) {
                Some(c) => {
                    let left = spec_trim(fd.subrange(0, c));
                    let pdesc = spec_trim(fd.subrange(c + 1, fd.len() as int));
                    let ps = spec_find_char(left, '(', 0);
                    let pe = spec_find_char(left, ')', 0);
                    if ps is Some && pe is Some && ps.unwrap() + 1 <= pe.unwrap() {
                        let fname = spec_trim(left.subrange(0, ps.unwrap()));
                        let ftype = spec_trim(left.subrange(ps.unwrap() + 1, pe.unwrap()));
                        spec_body_fold(
                            items,
                            i + 1,
                            ct,
                            desc,
                            props.push(
                                (
                                    fname,
                                    PropertySchemaView { schema_type: ftype, description: pdesc },
                                ),
                            ),
                        )
                    } else {
                        spec_body_fold(items, i + 1, ct, desc, props)
                    }
                },
                None => spec_body_fold(items, i + 1, ct, desc, props),
            }
        } else if it.len() > 0 {
            spec_body_fold(items, i + 1, ct, it, props)
        } else {
            spec_body_fold(items, i + 1, ct, desc, props)
        }
    }
}

/// A flat object schema over the given properties; a body with no
/// documented fields keeps a bare object schema.
pub open spec fn spec_object_schema(props: Seq<(Seq<char>, PropertySchemaView)>) -> SchemaView {
    SchemaView {
        schema_type: Some(("object")@),
        title: None,
        description: None,
        properties: if props.len() == 0 {
            None
        } else {
            Some(props)
        },
        required: None,
        reference: None,
        example: None,
        default_value: None,
    }
}

/// A JSON content section holding the given schema.
pub open spec fn spec_json_content(s: ReferenceOrView<SchemaView>) -> Seq<
    (Seq<char>, MediaTypeView),
> {
    seq![(("application/json")@, MediaTypeView { schema: Some(s) })]
}

/// A required request body referring to the named registered schema.
pub open spec fn spec_ref_body(n: Seq<char>) -> RequestBodyView {
    RequestBodyView {
        description: Some(("Request body")@),
        content: spec_json_content(ReferenceOrView::Reference(spec_ref_target(n))),
        required: true,
    }
}

/// The default request body used for an empty field: a required generic
/// object.
pub open spec fn spec_default_body() -> RequestBodyView {
    RequestBodyView {
        description: None,
        content: spec_json_content(
            ReferenceOrView::Item(spec_object_schema(Seq::empty())),
        ),
        required: true,
    }
}

/// The items of a raw request-body field: the strict decoding when it
/// succeeds, else the legacy split on the quoted-comma delimiter with
/// surrounding quotes stripped.
pub open spec fn spec_body_items(raw: Seq<char>) -> Seq<Seq<char>> {
    match json_string_array(raw) {
        Some(items) => items,
        None => {
            let inner = spec_trim_end_char(spec_trim_start_char(raw, '['), ']');
            let pieces = spec_split_str(inner, ("\",\"")@);
            Seq::new(pieces.len(), |i: int| spec_trim_char(pieces[i], '"'))
        },
    }
}

/// The request body parsed from a raw field, with the registered schema
/// name it uses, if any: an empty field gives the default body; an
/// explicit registered `Type: ` item wins; else the first registered name
/// contained in the raw text; else an inline body assembled from the
/// items.
pub open spec fn spec_request_body(raw: Seq<char>, reg: Seq<(Seq<char>, Seq<char>)>) -> (
    RequestBodyView,
    Option<Seq<char>>,
) {
    if raw == ("[]")@ || raw.len() == 0 {
        (spec_default_body(), None)
    } else {
        let items = spec_body_items(raw);
        match spec_explicit_type(items, reg, 0) {
            Some(n) => (spec_ref_body(n), Some(n)),
            None => match spec_contained_name(reg, raw, 0) {
                Some(n) => (spec_ref_body(n), Some(n)),
                None => {
                    let (ct, desc, props) = spec_body_fold(
                        items,
                        0,
                        ("application/json")@,
                        ("Request body")@,
                        Seq::empty(),
                    );
                    (
                        RequestBodyView {
                            description: Some(desc),
                            content: seq![
                                (
                                    ct,
                                    MediaTypeView {
                                        schema: Some(
                                            ReferenceOrView::Item(spec_object_schema(props)),
                                        ),
                                    },
                                ),
                            ],
                            required: true,
                        },
                        None,
                    )
                },
            },
        }
    }
}

/// A JSON media-type vector holding the given schema.
fn json_content(s: ReferenceOr<Schema>) -> (r: Vec<(String, MediaType)>)
    ensures
        pair_views(r@) == spec_json_content(s@),
{
    let mut content: Vec<(String, MediaType)> = Vec::new();
    content.push((("application/json").to_owned(), MediaType { schema: Some(s) }));
    proof {
        assert(pair_views(content@) =~= spec_json_content(s@));
    }
    content
}

/// A required request body referring to the named registered schema.
fn ref_body(n: &str) -> (r: RequestBody)
    ensures
        r@ == spec_ref_body(n@),
{
    RequestBody {
        description: Some(("Request body").to_owned()),
        content: json_content(ReferenceOr::Reference { reference: ref_target(n) }),
        required: true,
    }
}

/// The items of a raw request-body field.
fn body_items(raw: &str) -> (r: Vec<String>)
    ensures
        views_of(r@) == spec_body_items(raw@),
{
    match decode_string_array(raw) {
        Some(items) => {
            proof {
                assert(views_of(items@) =~= json_string_array(raw@).unwrap());
            }
            items
        },
        None => {
            let inner = trim_end_char(trim_start_char(raw, '[').as_str(), ']');
            proof {
                reveal_strlit("\",\"");
            }
            let pieces = split_str(inner.as_str(), "\",\"");
            let ghost gpieces = views_of(pieces@);
            let mut out: Vec<String> = Vec::new();
            let mut i: usize = 0;
            while i < pieces.len()
                invariant
                    gpieces == views_of(pieces@),
                    i <= pieces@.len(),
                    views_of(out@) =~= Seq::new(
                        i as nat,
                        |j: int| spec_trim_char(gpieces[j], '"'),
                    ),
                decreases pieces@.len() - i,
            {
                let cleaned = trim_char(pieces[i].as_str(), '"');
                proof {
                    assert(views_of(out@.push(cleaned)) =~= views_of(out@).push(cleaned@));
                    assert(Seq::new((i + 1) as nat, |j: int| spec_trim_char(gpieces[j], '"'))
                        =~= Seq::new(i as nat, |j: int| spec_trim_char(gpieces[j], '"')).push(
                        spec_trim_char(gpieces[i as int], '"'),
                    ));
                }
                out.push(cleaned);
                i = i + 1;
            }
            proof {
                assert(views_of(out@) =~= spec_body_items(raw@));
            }
            out
        },
    }
}

/// The explicit schema named by the first registered `Type: ` item.
fn explicit_type(items: &Vec<String>, registry: &Vec<SchemaRegistration>) -> (r: Option<String>)
    ensures
        (match r {
            Some(n) => Some(n@),
            None => None,
        }) == spec_explicit_type(views_of(items@), reg_views(registry@), 0),
{
    let ghost gitems = views_of(items@);
    let ghost greg = reg_views(registry@);
    let mut i: usize = 0;
    while i < items.len()
        invariant
            gitems == views_of(items@),
            greg == reg_views(registry@),
            i <= items@.len(),
            spec_explicit_type(gitems, greg, 0) == spec_explicit_type(gitems, greg, i as int),
        decreases items@.len() - i,
    {
        let it = items[i].as_str();
        let n = str_len(it);
        if starts_with(it, "Type: ") {
            let m = str_len("Type: ");
            proof {
                assert(("Type: ")@.len() <= gitems[i as int].len());
            }
            let target = substr(it, m, n);
            if reg_has(registry, target.as_str()) {
                return Some(target);
            }
        }
        i = i + 1;
    }
    None
}

/// The first registered name contained anywhere in the raw field text.
fn contained_name(registry: &Vec<SchemaRegistration>, raw: &str) -> (r: Option<String>)
    ensures
        (match r {
            Some(n) => Some(n@),
            None => None,
        }) == spec_contained_name(reg_views(registry@), raw@, 0),
{
    let ghost greg = reg_views(registry@);
    let mut i: usize = 0;
    while i < registry.len()
        invariant
            greg == reg_views(registry@),
            i <= registry@.len(),
            spec_contained_name(greg, raw@, 0) == spec_contained_name(greg, raw@, i as int),
        decreases registry@.len() - i,
    {
        if contains_sub(raw, registry[i].name.as_str()) {
            return Some(registry[i].name.clone());
        }
        i = i + 1;
    }
    None
}

/// The request body parsed from a raw field, with the registered schema
/// name it uses, if any. Parsing never fails; an empty field yields the
/// default required object body.
pub fn parse_request_body_raw(raw: &str, registry: &Vec<SchemaRegistration>) -> (r: (
    RequestBody,
    Option<String>,
))
    ensures
        r.0@ == spec_request_body(raw@, reg_views(registry@)).0,
        (match r.1 {
            Some(n) => Some(n@),
            None => None,
        }) == spec_request_body(raw@, reg_views(registry@)).1,
{
    if str_eq(raw, "[]") || str_len(raw) == 0 {
        let body = RequestBody {
            description: None,
            content: json_content(
                ReferenceOr::Item(object_schema(Vec::new())),
            ),
            required: true,
        };
        proof {
            assert(spec_object_schema(Seq::empty()) == spec_object_schema(
                pair_views(Seq::<(String, PropertySchema)>::empty()),
            ));
            assert(pair_views(Seq::<(String, PropertySchema)>::empty())
                =~= Seq::<(Seq<char>, PropertySchemaView)>::empty());
        }
        return (body, None);
    }
    let items = body_items(raw);
    if let Some(n) = explicit_type(&items, registry) {
        let body = ref_body(n.as_str());
        return (body, Some(n));
    }
    if let Some(n) = contained_name(registry, raw) {
        let body = ref_body(n.as_str());
        return (body, Some(n));
    }
    let ghost gitems = views_of(items@);
    let mut ct: String = ("application/json").to_owned();
    let mut desc: String = ("Request body").to_owned();
    let mut props: Vec<(String, PropertySchema)> = Vec::new();
    proof {
        assert(pair_views(props@) =~= Seq::<(Seq<char>, PropertySchemaView)>::empty());
    }
    let mut i: usize = 0;
    while i < items.len()
        invariant
            gitems == views_of(items@),
            i <= items@.len(),
            spec_body_fold(gitems, 0, ("application/json")@, ("Request body")@, Seq::empty())
                == spec_body_fold(gitems, i as int, ct@, desc@, pair_views(props@)),
        decreases items@.len() - i,
    {
        let it = items[i].as_str();
        let n = str_len(it);
        if contains_sub(it, "Content-Type:") {
            if contains_sub(it, "application/json") {
                ct = ("application/json").to_owned();
            }
        } else if starts_with(it, "- ") {
            let m = str_len("- ");
            proof {
                assert(("- ")@.len() <= gitems[i as int].len());
            }
            let fd = substr(it, m, n);
            let fdn = str_len(fd.as_str());
            if let Some(c) = find_char_from(fd.as_str(), ':', 0) {
                let left = trim(substr(fd.as_str(), 0, c).as_str());
                let pdesc = trim(substr(fd.as_str(), c + 1, fdn).as_str());
                let lln = str_len(left.as_str());
                let ps = find_char_from(left.as_str(), '(', 0);
                let pe = find_char_from(left.as_str(), ')', 0);
                if let (Some(a), Some(b)) = (ps, pe) {
                    if a + 1 <= b {
                        let fname = trim(substr(left.as_str(), 0, a).as_str());
                        let ftype = trim(substr(left.as_str(), a + 1, b).as_str());
                        let prop = PropertySchema { schema_type: ftype, description: pdesc };
                        proof {
                            assert(pair_views(props@.push((fname, prop))) =~= pair_views(
                                props@,
                            ).push((fname@, prop@)));
                        }
                        props.push((fname, prop));
                    }
                }
            }
        } else if n > 0 {
            desc = items[i].clone();
        }
        i = i + 1;
    }
    let mut content: Vec<(String, MediaType)> = Vec::new();
    content.push((ct, MediaType { schema: Some(ReferenceOr::Item(object_schema(props))) }));
    let ghost gfold = spec_body_fold(
        views_of(items@),
        0,
        ("application/json")@,
        ("Request body")@,
        Seq::empty(),
    );
    proof {
        assert(pair_views(content@) =~= seq![
            (
                gfold.0,
                MediaTypeView {
                    schema: Some(
                        ReferenceOrView::<SchemaView>::Item(spec_object_schema(gfold.2)),
                    ),
                },
            ),
        ]);
    }
    let body = RequestBody { description: Some(desc), content, required: true };
    (body, None)
}

/// A flat object schema over the given properties.
fn object_schema(props: Vec<(String, PropertySchema)>) -> (s: Schema)
    ensures
        s@ == spec_object_schema(pair_views(props@)),
{
    let has = props.len() > 0;
    Schema {
        schema_type: Some(("object").to_owned()),
        title: None,
        description: None,
        properties: if has {
            Some(props)
        } else {
            None
        },
        required: None,
        reference: None,
        example: None,
        default_value: None,
    }
}



/// Does a success description point at the registered name? Either the
/// name occurs in the description up to letter case, or one of the fixed
/// keyword pairings holds.
pub open spec fn spec_2xx_match(desc: Seq<char>, name: Seq<char>) -> bool {
    spec_contains(lower_of(desc), lower_of(name)) || (spec_contains(desc, ("user")@)
        && spec_contains(name, ("User")@)) || (spec_contains(desc, ("greeting")@)
        && spec_contains(name, ("Greet")@)) || (spec_contains(desc, ("hello")@)
        && spec_contains(name, ("Hello")@))
}

/// The first registered name a success description points at.
pub open spec fn spec_first_2xx(
    reg: Seq<(Seq<char>, Seq<char>)>,
    desc: Seq<char>,
    i: int,
) -> Option<Seq<char>>
    decreases reg.len() - i,
{
    if i < 0 || i >= reg.len() {
        None
    } else if spec_2xx_match(desc, reg[i].0) {
        Some(reg[i].0)
    } else {
        spec_first_2xx(reg, desc, i + 1)
    }
}

/// The first registered name with the error-type suffix that is contained
/// literally in the description.
pub open spec fn spec_first_err_contained(
    reg: Seq<(Seq<char>, Seq<char>)>,
    desc: Seq<char>,
    i: int,
) -> Option<Seq<char>>
    decreases reg.len() - i,
{
    if i < 0 || i >= reg.len() {
        None
    } else if spec_ends_with(reg[i].0, ("Error")@) && spec_contains(desc, reg[i].0) {
        Some(reg[i].0)
    } else {
        spec_first_err_contained(reg, desc, i + 1)
    }
}

/// The first registered name with the error-type suffix.
pub open spec fn spec_first_err_generic(reg: Seq<(Seq<char>, Seq<char>)>, i: int) -> Option<
    Seq<char>,
>
    decreases reg.len() - i,
{
    if i < 0 || i >= reg.len() {
        None
    } else if spec_ends_with(reg[i].0, ("Error")@) {
        Some(reg[i].0)
    } else {
        spec_first_err_generic(reg, i + 1)
    }
}

/// The declared error type stripped of any module path: the last piece of
/// the path-separated name.
pub open spec fn spec_last_path_piece(s: Seq<char>) -> Seq<char> {
    spec_split_str(s, ("::")@).last()
}

/// The one legacy alias: the conventional application error maps to the
/// registered error-response schema.
pub open spec fn spec_alias(n: Seq<char>) -> Seq<char> {
    if n == ("AppError")@ {
        ("ErrorResponse")@
    } else {
        n
    }
}

/// The registered schema the declared error type resolves to, if any:
/// the type name loses its module path, the legacy alias applies, and the
/// result counts only when registered.
pub open spec fn spec_errty_resolved(
    errty: Option<Seq<char>>,
    reg: Seq<(Seq<char>, Seq<char>)>,
) -> Option<Seq<char>> {
    match errty {
        None => None,
        Some(e) => {
            let mapped = spec_alias(spec_last_path_piece(e));
            if spec_reg_has(reg, mapped) {
                Some(mapped)
            } else {
                None
            }
        },
    }
}

/// The error schema attached to a non-success response: an error-suffixed
/// name contained in the description wins, else the resolved declared
/// error type, else the first error-suffixed name when the description
/// speaks of an error at all.
pub open spec fn spec_err_schema(
    desc: Seq<char>,
    errty: Option<Seq<char>>,
    reg: Seq<(Seq<char>, Seq<char>)>,
) -> Option<Seq<char>> {
    match spec_first_err_contained(reg, desc, 0) {
        Some(n) => Some(n),
        None => match spec_errty_resolved(errty, reg) {
            Some(n) => Some(n),
            None => {
                if spec_contains(lower_of(desc), ("error")@) {
                    spec_first_err_generic(reg, 0)
                } else {
                    None
                }
            },
        },
    }
}

/// The generic success schema: an object with an empty properties map.
pub open spec fn spec_empty_props_schema() -> SchemaView {
    SchemaView {
        schema_type: Some(("object")@),
        title: None,
        description: None,
        properties: Some(Seq::empty()),
        required: None,
        reference: None,
        example: None,
        default_value: None,
    }
}

/// One response shaped by its status code: a no-content code carries no
/// content; another success code always carries a JSON content section,
/// with the matched schema or the generic object; any other code carries
/// content only when an error schema resolves.
pub open spec fn spec_shape_response(
    code: Seq<char>,
    desc: Seq<char>,
    errty: Option<Seq<char>>,
    reg: Seq<(Seq<char>, Seq<char>)>,
) -> (ResponseView, Option<Seq<char>>) {
    if code == ("204")@ {
        (ResponseView { description: desc, content: None }, None)
    } else if code.len() > 0 && code[0] == '2' {
        match spec_first_2xx(reg, desc, 0) {
            Some(n) => (
                ResponseView {
                    description: desc,
                    content: Some(
                        spec_json_content(ReferenceOrView::Reference(spec_ref_target(n))),
                    ),
                },
                Some(n),
            ),
            None => (
                ResponseView {
                    description: desc,
                    content: Some(
                        spec_json_content(ReferenceOrView::Item(spec_empty_props_schema())),
                    ),
                },
                None,
            ),
        }
    } else {
        match spec_err_schema(desc, errty, reg) {
            Some(n) => (
                ResponseView {
                    description: desc,
                    content: Some(
                        spec_json_content(ReferenceOrView::Reference(spec_ref_target(n))),
                    ),
                },
                Some(n),
            ),
            None => (ResponseView { description: desc, content: None }, None),
        }
    }
}

/// All status lines shaped, keyed by their codes.
pub open spec fn spec_shaped_responses(
    lines: Seq<(Seq<char>, Seq<char>)>,
    errty: Option<Seq<char>>,
    reg: Seq<(Seq<char>, Seq<char>)>,
) -> Seq<(Seq<char>, ResponseView)> {
    Seq::new(
        lines.len(),
        |i: int| (lines[i].0, spec_shape_response(lines[i].0, lines[i].1, errty, reg).0),
    )
}

/// The registered names the shaped responses use, in order of the lines.
pub open spec fn spec_shaped_used(
    lines: Seq<(Seq<char>, Seq<char>)>,
    errty: Option<Seq<char>>,
    reg: Seq<(Seq<char>, Seq<char>)>,
    i: int,
) -> Seq<Seq<char>>
    decreases lines.len() - i,
{
    if i < 0 || i >= lines.len() {
        Seq::empty()
    } else {
        (match spec_shape_response(lines[i].0, lines[i].1, errty, reg).1 {
            Some(n) => seq![n],
            None => Seq::<Seq<char>>::empty(),
        }) + spec_shaped_used(lines, errty, reg, i + 1)
    }
}

/// The first registered name a success description points at.
fn first_2xx_name(registry: &Vec<SchemaRegistration>, desc: &str) -> (r: Option<String>)
    ensures
        (match r {
            Some(n) => Some(n@),
            None => None,
        }) == spec_first_2xx(reg_views(registry@), desc@, 0),
{
    let ghost greg = reg_views(registry@);
    let low_desc = lowercase(desc);
    let mut i: usize = 0;
    while i < registry.len()
        invariant
            greg == reg_views(registry@),
            low_desc@ == lower_of(desc@),
            i <= registry@.len(),
            spec_first_2xx(greg, desc@, 0) == spec_first_2xx(greg, desc@, i as int),
        decreases registry@.len() - i,
    {
        let name = registry[i].name.as_str();
        let low_name = lowercase(name);
        let hit = contains_sub(low_desc.as_str(), low_name.as_str()) || (contains_sub(
            desc,
            "user",
        ) && contains_sub(name, "User")) || (contains_sub(desc, "greeting") && contains_sub(
            name,
            "Greet",
        )) || (contains_sub(desc, "hello") && contains_sub(name, "Hello"));
        if hit {
            assert(spec_2xx_match(desc@, greg[i as int].0));
            return Some(registry[i].name.clone());
        }
        assert(!spec_2xx_match(desc@, greg[i as int].0));
        i = i + 1;
    }
    None
}

/// The error schema attached to a non-success response, if any.
fn err_schema_name(
    registry: &Vec<SchemaRegistration>,
    desc: &str,
    errty: &Option<String>,
) -> (r: Option<String>)
    ensures
        (match r {
            Some(n) => Some(n@),
            None => None,
        }) == spec_err_schema(
            desc@,
            match errty {
                Some(e) => Some(e@),
                None => None,
            },
            reg_views(registry@),
        ),
{
    let ghost greg = reg_views(registry@);
    let mut i: usize = 0;
    while i < registry.len()
        invariant
            greg == reg_views(registry@),
            i <= registry@.len(),
            spec_first_err_contained(greg, desc@, 0) == spec_first_err_contained(
                greg,
                desc@,
                i as int,
            ),
        decreases registry@.len() - i,
    {
        let name = registry[i].name.as_str();
        if ends_with(name, "Error") && contains_sub(desc, name) {
            assert((greg[i as int]).0 == name@);
            return Some(registry[i].name.clone());
        }
        assert((greg[i as int]).0 == name@);
        i = i + 1;
    }
    if let Some(e) = errty {
        proof {
            reveal_strlit("::");
        }
        let pieces = split_str(e.as_str(), "::");
        proof {
            assert(views_of(pieces@).len() >= 1);
        }
        let clean = pieces[pieces.len() - 1].as_str();
        proof {
            assert(clean@ == spec_last_path_piece(e@));
        }
        let mapped: String = if str_eq(clean, "AppError") {
            ("ErrorResponse").to_owned()
        } else {
            clean.to_owned()
        };
        if reg_has(registry, mapped.as_str()) {
            return Some(mapped);
        }
    }
    let low_desc = lowercase(desc);
    if contains_sub(low_desc.as_str(), "error") {
        let mut i: usize = 0;
        while i < registry.len()
            invariant
                greg == reg_views(registry@),
                i <= registry@.len(),
                spec_first_err_generic(greg, 0) == spec_first_err_generic(greg, i as int),
                spec_first_err_contained(greg, desc@, 0) is None,
                spec_errty_resolved(
                    match errty {
                        Some(e) => Some(e@),
                        None => None,
                    },
                    greg,
                ) is None,
                spec_contains(lower_of(desc@), ("error")@),
            decreases registry@.len() - i,
        {
            if ends_with(registry[i].name.as_str(), "Error") {
                assert((greg[i as int]).0 == registry@[i as int].name@);
                return Some(registry[i].name.clone());
            }
            assert((greg[i as int]).0 == registry@[i as int].name@);
            i = i + 1;
        }
    }
    None
}

/// The generic success schema: an object with an empty properties map.
fn empty_props_schema() -> (s: Schema)
    ensures
        s@ == spec_empty_props_schema(),
{
    let props: Vec<(String, PropertySchema)> = Vec::new();
    let s = Schema {
        schema_type: Some(("object").to_owned()),
        title: None,
        description: None,
        properties: Some(props),
        required: None,
        reference: None,
        example: None,
        default_value: None,
    };
    proof {
        assert(s@.properties->0 =~= Seq::<(Seq<char>, PropertySchemaView)>::empty());
        assert(s@ == spec_empty_props_schema());
    }
    s
}

/// One response shaped by its status code.
fn shape_response(
    code: &str,
    desc: &str,
    errty: &Option<String>,
    registry: &Vec<SchemaRegistration>,
) -> (r: (Response, Option<String>))
    ensures
        ({
            let g = spec_shape_response(
                code@,
                desc@,
                match errty {
                    Some(e) => Some(e@),
                    None => None,
                },
                reg_views(registry@),
            );
            r.0@ == g.0 && (match r.1 {
                Some(n) => Some(n@),
                None => None,
            }) == g.1
        }),
{
    if str_eq(code, "204") {
        return (Response { description: desc.to_owned(), content: None }, None);
    }
    let n = str_len(code);
    if n > 0 && char_at(code, 0) == '2' {
        match first_2xx_name(registry, desc) {
            Some(name) => {
                let content = json_content(
                    ReferenceOr::Reference { reference: ref_target(name.as_str()) },
                );
                (
                    Response { description: desc.to_owned(), content: Some(content) },
                    Some(name),
                )
            },
            None => {
                let content = json_content(ReferenceOr::Item(empty_props_schema()));
                (Response { description: desc.to_owned(), content: Some(content) }, None)
            },
        }
    } else {
        match err_schema_name(registry, desc, errty) {
            Some(name) => {
                let content = json_content(
                    ReferenceOr::Reference { reference: ref_target(name.as_str()) },
                );
                (
                    Response { description: desc.to_owned(), content: Some(content) },
                    Some(name),
                )
            },
            None => (Response { description: desc.to_owned(), content: None }, None),
        }
    }
}

/// All status lines shaped, with the registered names they use.
pub fn shape_responses(
    lines: &Vec<(String, String)>,
    errty: &Option<String>,
    registry: &Vec<SchemaRegistration>,
) -> (r: (Vec<(String, Response)>, Vec<String>))
    ensures
        ({
            let glines = pair_views(lines@);
            let gerr = match errty {
                Some(e) => Some(e@),
                None => None,
            };
            let greg = reg_views(registry@);
            pair_views(r.0@) == spec_shaped_responses(glines, gerr, greg) && views_of(r.1@)
                == spec_shaped_used(glines, gerr, greg, 0)
        }),
{
    let ghost glines = pair_views(lines@);
    let ghost gerr = match errty {
        Some(e) => Some(e@),
        None => None,
    };
    let ghost greg = reg_views(registry@);
    let mut shaped: Vec<(String, Response)> = Vec::new();
    let mut used: Vec<String> = Vec::new();
    let mut i: usize = 0;
    while i < lines.len()
        invariant
            glines == pair_views(lines@),
            gerr == (match errty {
                Some(e) => Some(e@),
                None => None,
            }),
            greg == reg_views(registry@),
            i <= lines@.len(),
            pair_views(shaped@) =~= spec_shaped_responses(glines, gerr, greg).subrange(
                0,
                i as int,
            ),
            views_of(used@) + spec_shaped_used(glines, gerr, greg, i as int) =~= spec_shaped_used(
                glines,
                gerr,
                greg,
                0,
            ),
        decreases lines@.len() - i,
    {
        let (resp, uname) = shape_response(
            lines[i].0.as_str(),
            lines[i].1.as_str(),
            errty,
            registry,
        );
        let code = lines[i].0.clone();
        proof {
            assert(pair_views(shaped@.push((code, resp))) =~= pair_views(shaped@).push(
                (code@, resp@),
            ));
            assert(spec_shaped_responses(glines, gerr, greg).subrange(0, i + 1)
                =~= spec_shaped_responses(glines, gerr, greg).subrange(0, i as int).push(
                spec_shaped_responses(glines, gerr, greg)[i as int],
            ));
        }
        shaped.push((code, resp));
        match uname {
            Some(name) => {
                proof {
                    assert(views_of(used@.push(name)) =~= views_of(used@).push(name@));
                    assert(views_of(used@) + (seq![name@] + spec_shaped_used(
                        glines,
                        gerr,
                        greg,
                        i + 1,
                    )) =~= (views_of(used@) + seq![name@]) + spec_shaped_used(
                        glines,
                        gerr,
                        greg,
                        i + 1,
                    ));
                }
                used.push(name);
            },
            None => {},
        }
        i = i + 1;
    }
    proof {
        assert(pair_views(shaped@) =~= spec_shaped_responses(glines, gerr, greg));
        assert(views_of(used@) =~= spec_shaped_used(glines, gerr, greg, 0));
    }
    (shaped, used)
}

/// The default response given when a field declares none: a bare success.
pub open spec fn spec_default_200() -> (Seq<char>, ResponseView) {
    (("200")@, ResponseView { description: ("Successful response")@, content: None })
}

/// The status lines and declared error type of a raw responses field:
/// the strict decoding when it succeeds, the legacy quote-split reading
/// otherwise, which carries no error-type markers.
pub open spec fn spec_response_source(raw: Seq<char>) -> (
    Seq<(Seq<char>, Seq<char>)>,
    Option<Seq<char>>,
) {
    match json_string_array(raw) {
        Some(items) => (
            crate::parse::spec_response_lines(items, 0),
            crate::parse::spec_error_type_of(items, 0, None),
        ),
        None => (
            crate::parse::spec_legacy_response_lines(
                crate::parse::spec_legacy_response_pieces(raw),
                0,
            ),
            None,
        ),
    }
}

/// The responses parsed and shaped from a raw field, with the registered
/// names they use: an empty field or one without a single well-formed
/// status line yields the default success response alone.
pub open spec fn spec_responses_of_raw(raw: Seq<char>, reg: Seq<(Seq<char>, Seq<char>)>) -> (
    Seq<(Seq<char>, ResponseView)>,
    Seq<Seq<char>>,
) {
    if raw == ("[]")@ || raw.len() == 0 {
        (seq![spec_default_200()], Seq::empty())
    } else {
        let (lines, errty) = spec_response_source(raw);
        if lines.len() == 0 {
            (seq![spec_default_200()], Seq::empty())
        } else {
            (spec_shaped_responses(lines, errty, reg), spec_shaped_used(lines, errty, reg, 0))
        }
    }
}

/// The default response given when a field declares none.
fn default_200() -> (r: Vec<(String, Response)>)
    ensures
        pair_views(r@) == seq![spec_default_200()],
{
    let mut out: Vec<(String, Response)> = Vec::new();
    out.push(
        (
            ("200").to_owned(),
            Response { description: ("Successful response").to_owned(), content: None },
        ),
    );
    proof {
        assert(pair_views(out@) =~= seq![spec_default_200()]);
    }
    out
}

/// The responses parsed and shaped from a raw field, with the registered
/// names they use. Parsing never fails; a field without a single
/// well-formed status line yields the default success response.
pub fn parse_responses_raw(raw: &str, registry: &Vec<SchemaRegistration>) -> (r: (
    Vec<(String, Response)>,
    Vec<String>,
))
    ensures
        ({
            let g = spec_responses_of_raw(raw@, reg_views(registry@));
            pair_views(r.0@) == g.0 && views_of(r.1@) == g.1
        }),
{
    if str_eq(raw, "[]") || str_len(raw) == 0 {
        let used: Vec<String> = Vec::new();
        proof {
            assert(views_of(used@) =~= Seq::<Seq<char>>::empty());
        }
        return (default_200(), used);
    }
    let (lines, errty) = match decode_string_array(raw) {
        Some(items) => {
            proof {
                assert(views_of(items@) =~= json_string_array(raw@).unwrap());
            }
            crate::parse::parse_response_lines(&items)
        },
        None => (crate::parse::parse_legacy_response_lines(raw), None),
    };
    if lines.len() == 0 {
        let used: Vec<String> = Vec::new();
        proof {
            assert(pair_views(lines@) =~= Seq::<(Seq<char>, Seq<char>)>::empty());
            assert(views_of(used@) =~= Seq::<Seq<char>>::empty());
        }
        return (default_200(), used);
    }
    shape_responses(&lines, &errty, registry)
}


/// Does the raw schema text of the first record named `m` refer to `n`?
pub open spec fn spec_ref_from(
    reg: Seq<(Seq<char>, Seq<char>)>,
    m: Seq<char>,
    n: Seq<char>,
) -> bool {
    match spec_first_reg_text(reg, m, 0) {
        Some(t) => spec_refs_in(t, 0).contains(n),
        None => false,
    }
}

/// Is `n` reachable from the starting set in at most `k` reference steps,
/// each step following a `$ref` in the text of a registered schema to a
/// registered name?
pub open spec fn spec_reach(
    reg: Seq<(Seq<char>, Seq<char>)>,
    s0: Set<Seq<char>>,
    n: Seq<char>,
    k: nat,
) -> bool
    decreases k,
{
    if k == 0 {
        s0.contains(n)
    } else {
        spec_reach(reg, s0, n, (k - 1) as nat) || (spec_reg_has(reg, n) && exists|m: Seq<char>|
            spec_reach(reg, s0, m, (k - 1) as nat) && #[trigger] spec_ref_from(reg, m, n))
    }
}

/// Is `n` in the reference closure of the starting set?
pub open spec fn spec_closure_has(
    reg: Seq<(Seq<char>, Seq<char>)>,
    s0: Set<Seq<char>>,
    n: Seq<char>,
) -> bool {
    exists|k: nat| spec_reach(reg, s0, n, k)
}

/// Reaching in few steps is reaching in more.
proof fn lemma_reach_mono(
    reg: Seq<(Seq<char>, Seq<char>)>,
    s0: Set<Seq<char>>,
    n: Seq<char>,
    k1: nat,
    k2: nat,
)
    requires
        k1 <= k2,
        spec_reach(reg, s0, n, k1),
    ensures
        spec_reach(reg, s0, n, k2),
    decreases k2,
{
    if k1 < k2 {
        lemma_reach_mono(reg, s0, n, k1, (k2 - 1) as nat);
    }
}

/// A set that contains the starting names and is closed under one
/// reference step holds everything reachable.
proof fn lemma_closure_complete(
    reg: Seq<(Seq<char>, Seq<char>)>,
    s0: Set<Seq<char>>,
    used: Seq<Seq<char>>,
    n: Seq<char>,
    k: nat,
)
    requires
        forall|m: Seq<char>| s0.contains(m) ==> used.contains(m),
        forall|m: Seq<char>, n2: Seq<char>|
            used.contains(m) && #[trigger] spec_ref_from(reg, m, n2) && spec_reg_has(reg, n2)
                ==> used.contains(n2),
        spec_reach(reg, s0, n, k),
    ensures
        used.contains(n),
    decreases k,
{
    if k > 0 {
        if spec_reach(reg, s0, n, (k - 1) as nat) {
            lemma_closure_complete(reg, s0, used, n, (k - 1) as nat);
        } else {
            let m = choose|m: Seq<char>|
                spec_reach(reg, s0, m, (k - 1) as nat) && #[trigger] spec_ref_from(reg, m, n);
            lemma_closure_complete(reg, s0, used, m, (k - 1) as nat);
        }
    }
}

/// A duplicate-free sequence of registered names is no longer than the
/// registry.
proof fn lemma_used_bound(used: Seq<Seq<char>>, reg: Seq<(Seq<char>, Seq<char>)>)
    requires
        used.no_duplicates(),
        forall|n: Seq<char>| used.contains(n) ==> spec_reg_has(reg, n),
    ensures
        used.len() <= reg.len(),
{
    broadcast use vstd::seq_lib::seq_to_set_is_finite;

    let names = Seq::new(reg.len(), |i: int| reg[i].0);
    used.unique_seq_to_set();
    assert(used.to_set().subset_of(names.to_set())) by {
        assert forall|n: Seq<char>| used.to_set().contains(n) implies names.to_set().contains(
            n,
        ) by {
            assert(used.contains(n));
            assert(spec_reg_has(reg, n));
            let j = choose|j: int| 0 <= j < reg.len() && (#[trigger] reg[j]).0 == n;
            assert(names[j] == n);
            assert(names.contains(n));
        }
    }
    vstd::set_lib::lemma_len_subset(used.to_set(), names.to_set());
    names.lemma_cardinality_of_set();
}

/// Is the given string among the vector's elements?
pub fn vec_has_str(v: &Vec<String>, s: &str) -> (r: bool)
    ensures
        r == views_of(v@).contains(s@),
{
    let ghost gv = views_of(v@);
    let mut i: usize = 0;
    while i < v.len()
        invariant
            gv == views_of(v@),
            i <= v@.len(),
            forall|j: int| 0 <= j < i ==> gv[j] != s@,
        decreases v@.len() - i,
    {
        if str_eq(v[i].as_str(), s) {
            assert(gv[i as int] == s@);
            return true;
        }
        assert(gv[i as int] == v@[i as int]@);
        i = i + 1;
    }
    false
}

/// Adds to the used set every registered name that the text of the first
/// record named `name` refers to, keeping the set duplicate-free. Returns
/// whether anything was added.
fn push_new_refs(
    used: &mut Vec<String>,
    registry: &Vec<SchemaRegistration>,
    name: &str,
) -> (added: bool)
    requires
        views_of(old(used)@).no_duplicates(),
    ensures
        views_of(final(used)@).no_duplicates(),
        forall|n: Seq<char>|
            #[trigger] views_of(old(used)@).contains(n) ==> views_of(final(used)@).contains(n),
        forall|n: Seq<char>|
            #[trigger] views_of(final(used)@).contains(n) ==> views_of(old(used)@).contains(n) || (
            spec_ref_from(reg_views(registry@), name@, n) && spec_reg_has(reg_views(registry@), n)),
        forall|n: Seq<char>|
            #[trigger] spec_ref_from(reg_views(registry@), name@, n) && spec_reg_has(
                reg_views(registry@),
                n,
            ) ==> views_of(final(used)@).contains(n),
        !added ==> final(used)@ == old(used)@,
        added ==> views_of(final(used)@).len() > views_of(old(used)@).len(),
        views_of(final(used)@).len() >= views_of(old(used)@).len(),
{
    let ghost greg = reg_views(registry@);
    let text = match first_reg_text(registry, name) {
        Some(t) => t,
        None => {
            return false;
        },
    };
    let refs = extract_schema_references(text.as_str());
    let ghost grefs = views_of(refs@);
    let mut added = false;
    let mut j: usize = 0;
    while j < refs.len()
        invariant
            greg == reg_views(registry@),
            grefs == views_of(refs@),
            grefs == spec_refs_in(text@, 0),
            spec_first_reg_text(greg, name@, 0) == Some(text@),
            j <= refs@.len(),
            views_of(used@).no_duplicates(),
            forall|n: Seq<char>|
                #[trigger] views_of(old(used)@).contains(n) ==> views_of(used@).contains(n),
            forall|n: Seq<char>|
                #[trigger] views_of(used@).contains(n) ==> views_of(old(used)@).contains(n) || (
                spec_ref_from(greg, name@, n) && spec_reg_has(greg, n)),
            forall|t: int|
                0 <= t < j && spec_reg_has(greg, #[trigger] grefs[t]) ==> views_of(
                    used@,
                ).contains(grefs[t]),
            !added ==> used@ == old(used)@,
            added ==> views_of(used@).len() > views_of(old(used)@).len(),
            views_of(used@).len() >= views_of(old(used)@).len(),
        decreases refs@.len() - j,
    {
        let rf = refs[j].as_str();
        assert(rf@ == grefs[j as int]);
        if !vec_has_str(used, rf) && reg_has(registry, rf) {
            proof {
                assert(grefs.contains(grefs[j as int]));
                assert(spec_ref_from(greg, name@, rf@));
            }
            let ghost gu = views_of(used@);
            used.push(rf.to_owned());
            proof {
                broadcast use vstd::seq_lib::group_seq_properties;

                assert(views_of(used@) =~= gu.push(rf@));
                assert forall|n: Seq<char>|
                    #[trigger] views_of(used@).contains(n) implies gu.contains(n) || n == rf@ by {
                    let t = choose|t: int|
                        0 <= t < views_of(used@).len() && views_of(used@)[t] == n;
                    if t < gu.len() {
                        assert(gu[t] == n);
                    }
                }
                assert(views_of(used@).no_duplicates()) by {
                    assert(forall|a: int, b: int|
                        0 <= a < b < views_of(used@).len() ==> views_of(used@)[a] != views_of(
                            used@,
                        )[b]) by {
                        assert(forall|a: int|
                            0 <= a < gu.len() ==> gu[a] == #[trigger] views_of(used@)[a]);
                        assert(views_of(used@)[gu.len() as int] == rf@);
                        assert(!gu.contains(rf@));
                    }
                }
                assert(views_of(used@).len() == gu.len() + 1);
            }
            added = true;
        }
        j = j + 1;
    }
    added
}

/// Grows the used set to its reference closure: repeatedly scans the raw
/// schema text of every used name for `$ref` occurrences and adds each
/// registered target, until a full pass adds nothing. On return the set
/// holds exactly the names reachable from the starting set.
pub fn close_used(used: &mut Vec<String>, registry: &Vec<SchemaRegistration>)
    requires
        views_of(old(used)@).no_duplicates(),
        forall|n: Seq<char>|
            views_of(old(used)@).contains(n) ==> spec_reg_has(reg_views(registry@), n),
    ensures
        views_of(final(used)@).no_duplicates(),
        forall|n: Seq<char>|
            views_of(final(used)@).contains(n) ==> spec_reg_has(reg_views(registry@), n),
        forall|n: Seq<char>|
            #[trigger] views_of(final(used)@).contains(n) <==> spec_closure_has(
                reg_views(registry@),
                views_of(old(used)@).to_set(),
                n,
            ),
{
    let ghost greg = reg_views(registry@);
    let ghost s0 = views_of(old(used)@).to_set();
    proof {
        assert forall|n: Seq<char>| views_of(used@).contains(n) implies spec_closure_has(
            greg,
            s0,
            n,
        ) by {
            assert(spec_reach(greg, s0, n, 0));
        }
    }
    proof {
        lemma_used_bound(views_of(used@), greg);
    }
    let mut found = true;
    loop
        invariant
            greg == reg_views(registry@),
            s0 == views_of(old(used)@).to_set(),
            views_of(used@).no_duplicates(),
            forall|n: Seq<char>| #[trigger] views_of(used@).contains(n) ==> spec_reg_has(greg, n),
            views_of(used@).len() <= greg.len(),
            forall|n: Seq<char>| #[trigger] s0.contains(n) ==> views_of(used@).contains(n),
            forall|n: Seq<char>|
                #[trigger] views_of(used@).contains(n) ==> spec_closure_has(greg, s0, n),
            !found ==> forall|m: Seq<char>, n: Seq<char>|
                views_of(used@).contains(m) && #[trigger] spec_ref_from(greg, m, n)
                    && spec_reg_has(greg, n) ==> views_of(used@).contains(n),
        ensures
            views_of(used@).no_duplicates(),
            forall|n: Seq<char>| #[trigger] views_of(used@).contains(n) ==> spec_reg_has(greg, n),
            forall|n: Seq<char>| #[trigger] s0.contains(n) ==> views_of(used@).contains(n),
            forall|n: Seq<char>|
                #[trigger] views_of(used@).contains(n) ==> spec_closure_has(greg, s0, n),
            forall|m: Seq<char>, n: Seq<char>|
                views_of(used@).contains(m) && #[trigger] spec_ref_from(greg, m, n)
                    && spec_reg_has(greg, n) ==> views_of(used@).contains(n),
        decreases registry@.len() + 1 - used@.len(),
    {
        found = false;
        let ghost gpass = used@;
        let mut current: Vec<String> = Vec::new();
        let mut c: usize = 0;
        while c < used.len()
            invariant
                c <= used@.len(),
                current@.len() == c,
                forall|t: int| 0 <= t < c ==> current@[t]@ == used@[t]@,
            decreases used@.len() - c,
        {
            current.push(used[c].clone());
            c = c + 1;
        }
        proof {
            assert(views_of(current@) =~= views_of(gpass));
        }
        let mut j: usize = 0;
        while j < current.len()
            invariant
                greg == reg_views(registry@),
                s0 == views_of(old(used)@).to_set(),
                views_of(current@) == views_of(gpass),
                j <= current@.len(),
                views_of(used@).no_duplicates(),
                forall|n: Seq<char>| #[trigger] views_of(used@).contains(n) ==> spec_reg_has(greg, n),
                forall|n: Seq<char>| #[trigger] s0.contains(n) ==> views_of(used@).contains(n),
                forall|n: Seq<char>|
                    #[trigger] views_of(used@).contains(n) ==> spec_closure_has(greg, s0, n),
                forall|n: Seq<char>|
                    #[trigger] views_of(gpass).contains(n) ==> views_of(used@).contains(n),
                !found ==> used@ == gpass,
                !found ==> forall|t: int, n: Seq<char>|
                    0 <= t < j && #[trigger] spec_ref_from(greg, views_of(current@)[t], n)
                        && spec_reg_has(greg, n) ==> views_of(used@).contains(n),
                found ==> views_of(used@).len() > views_of(gpass).len(),
                views_of(used@).len() >= views_of(gpass).len(),
            decreases current@.len() - j,
        {
            let ghost gu_before = views_of(used@);
            let ghost m = views_of(current@)[j as int];
            assert(current@[j as int]@ == m);
            let a = push_new_refs(used, registry, current[j].as_str());
            proof {
                if a {
                    assert forall|n: Seq<char>|
                        views_of(used@).contains(n) && !gu_before.contains(n) implies spec_closure_has(
                        greg,
                        s0,
                        n,
                    ) by {
                        assert(spec_ref_from(greg, m, n) && spec_reg_has(greg, n));
                        assert(views_of(gpass).contains(m));
                        assert(gu_before.contains(m));
                        assert(spec_closure_has(greg, s0, m));
                        let k = choose|k: nat| spec_reach(greg, s0, m, k);
                        assert(spec_reach(greg, s0, n, k + 1));
                    }
                }
            }
            if a {
                found = true;
            }
            j = j + 1;
        }
        proof {
            lemma_used_bound(views_of(used@), greg);
            if !found {
                assert(used@ == gpass);
                assert forall|m2: Seq<char>, n: Seq<char>|
                    views_of(used@).contains(m2) && #[trigger] spec_ref_from(greg, m2, n)
                        && spec_reg_has(greg, n) implies views_of(used@).contains(n) by {
                    let t = choose|t: int|
                        0 <= t < views_of(used@).len() && views_of(used@)[t] == m2;
                    assert(views_of(current@)[t] == m2);
                }
            }
        }
        if !found {
            break;
        }
    }
    proof {
        assert forall|n: Seq<char>| spec_closure_has(greg, s0, n) implies views_of(
            used@,
        ).contains(n) by {
            let k = choose|k: nat| spec_reach(greg, s0, n, k);
            lemma_closure_complete(greg, s0, views_of(used@), n, k);
        }
    }
}

} // verus!
