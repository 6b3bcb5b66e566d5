//! Verified JSON emission for the document model. Every emitter returns
//! text equal to a specification-level rendering of the value's view, so
//! the document text is a function of the assembled value alone.

use vstd::prelude::*;
use vstd::string::StringExecFns;

use crate::openapi::{Components, ComponentsView, Contact, ContactView, ExternalDocs,
    ExternalDocsView, Info, InfoView, License, LicenseView, MediaType, MediaTypeView, OpenAPI,
    OpenAPIView, Operation, OperationView, Parameter, ParameterView, PathItem, PathItemView,
    PropertySchema, PropertySchemaView, ReferenceOr, ReferenceOrView, RequestBody,
    RequestBodyView, Response, ResponseView, Schema, SchemaView, SecurityRequirement,
    SecurityRequirementView, SecurityScheme, SecuritySchemeView, Tag, TagView, pair_views};
use crate::strings::{spec_join, views_of, join_with, substr, char_at, str_len};

verus! {

/// The hexadecimal digit for a value below sixteen.
pub open spec fn hexc(n: int) -> char {
    if n == 0 {
        '0'
    } else if n == 1 {
        '1'
    } else if n == 2 {
        '2'
    } else if n == 3 {
        '3'
    } else if n == 4 {
        '4'
    } else if n == 5 {
        '5'
    } else if n == 6 {
        '6'
    } else if n == 7 {
        '7'
    } else if n == 8 {
        '8'
    } else if n == 9 {
        '9'
    } else if n == 10 {
        'a'
    } else if n == 11 {
        'b'
    } else if n == 12 {
        'c'
    } else if n == 13 {
        'd'
    } else if n == 14 {
        'e'
    } else {
        'f'
    }
}

/// How one character is written inside a JSON string literal.
pub open spec fn jesc_char(c: char) -> Seq<char> {
    if c == '"' {
        ("\\\"")@
    } else if c == '\\' {
        ("\\\\")@
    } else if c == '\n' {
        ("\\n")@
    } else if c == '\r' {
        ("\\r")@
    } else if c == '\t' {
        ("\\t")@
    } else if (c as u32) < 32 {
        ("\\u00")@ + seq![hexc((c as u32) as int / 16), hexc((c as u32) as int % 16)]
    } else {
        seq![c]
    }
}

/// A character sequence written inside a JSON string literal.
pub open spec fn jesc(s: Seq<char>) -> Seq<char>
    decreases s.len(),
{
    if s.len() == 0 {
        Seq::empty()
    } else {
        jesc(s.drop_last()) + jesc_char(s.last())
    }
}

/// A JSON string literal: quoted and escaped.
pub open spec fn jstr(s: Seq<char>) -> Seq<char> {
    ("\"")@ + jesc(s) + ("\"")@
}

/// A JSON boolean literal.
pub open spec fn jbool(b: bool) -> Seq<char> {
    if b {
        ("true")@
    } else {
        ("false")@
    }
}

/// A JSON object with the given members.
pub open spec fn jobj(ms: Seq<Seq<char>>) -> Seq<char> {
    ("{")@ + spec_join(ms, (",")@) + ("}")@
}

/// A JSON array with the given elements.
pub open spec fn jarr(ms: Seq<Seq<char>>) -> Seq<char> {
    ("[")@ + spec_join(ms, (",")@) + ("]")@
}

/// Each element rendered as a JSON string literal.
pub open spec fn jstr_seq(ts: Seq<Seq<char>>) -> Seq<Seq<char>> {
    Seq::new(ts.len(), |i: int| jstr(ts[i]))
}

/// The hexadecimal digit for a value below sixteen.
fn hex_str(n: usize) -> (r: &'static str)
    requires
        n < 16,
    ensures
        r@ == seq![hexc(n as int)],
{
    proof {
        reveal_strlit("0");
        reveal_strlit("1");
        reveal_strlit("2");
        reveal_strlit("3");
        reveal_strlit("4");
        reveal_strlit("5");
        reveal_strlit("6");
        reveal_strlit("7");
        reveal_strlit("8");
        reveal_strlit("9");
        reveal_strlit("a");
        reveal_strlit("b");
        reveal_strlit("c");
        reveal_strlit("d");
        reveal_strlit("e");
        reveal_strlit("f");
    }
    if n == 0 {
        "0"
    } else if n == 1 {
        "1"
    } else if n == 2 {
        "2"
    } else if n == 3 {
        "3"
    } else if n == 4 {
        "4"
    } else if n == 5 {
        "5"
    } else if n == 6 {
        "6"
    } else if n == 7 {
        "7"
    } else if n == 8 {
        "8"
    } else if n == 9 {
        "9"
    } else if n == 10 {
        "a"
    } else if n == 11 {
        "b"
    } else if n == 12 {
        "c"
    } else if n == 13 {
        "d"
    } else if n == 14 {
        "e"
    } else {
        "f"
    }
}

/// The characters of `s` escaped for use inside a JSON string literal.
pub fn esc_json(s: &str) -> (r: String)
    ensures
        r@ == jesc(s@),
{
    let n = str_len(s);
    let mut out = String::new();
    let mut i: usize = 0;
    while i < n
        invariant
            n == s@.len(),
            i <= n,
            out@ == jesc(s@.subrange(0, i as int)),
        decreases n - i,
    {
        let c = char_at(s, i);
        proof {
            assert(s@.subrange(0, i + 1).drop_last() =~= s@.subrange(0, i as int));
            assert(s@.subrange(0, i + 1).last() == s@[i as int]);
        }
        if c == '"' {
            out.append("\\\"");
        } else if c == '\\' {
            out.append("\\\\");
        } else if c == '\n' {
            out.append("\\n");
        } else if c == '\r' {
            out.append("\\r");
        } else if c == '\t' {
            out.append("\\t");
        } else if (c as u32) < 32 {
            let u = c as u32;
            out.append("\\u00");
            out.append(hex_str((u / 16) as usize));
            out.append(hex_str((u % 16) as usize));
            proof {
                assert(jesc_char(c) =~= ("\\u00")@ + seq![
                    hexc((c as u32) as int / 16),
                    hexc((c as u32) as int % 16),
                ]);
                assert(out@ =~= jesc(s@.subrange(0, i as int)) + jesc_char(c));
            }
        } else {
            let piece = substr(s, i, i + 1);
            proof {
                assert(piece@ =~= seq![s@[i as int]]);
            }
            out.append(piece.as_str());
        }
        i = i + 1;
    }
    proof {
        assert(s@.subrange(0, n as int) =~= s@);
    }
    out
}

/// The given characters as a JSON string literal.
pub fn jstr_of(s: &str) -> (r: String)
    ensures
        r@ == jstr(s@),
{
    let mut out = ("\"").to_owned();
    let body = esc_json(s);
    out.append(body.as_str());
    out.append("\"");
    out
}

/// A member or value piece: the fixed head followed by the given text.
pub fn glue(head: &str, val: String) -> (r: String)
    ensures
        r@ == head@ + val@,
{
    let mut out = head.to_owned();
    out.append(val.as_str());
    out
}

/// A JSON object with the given members.
pub fn obj_of(ms: &Vec<String>) -> (r: String)
    ensures
        r@ == jobj(views_of(ms@)),
{
    let mut out = ("{").to_owned();
    let body = join_with(ms, ",");
    out.append(body.as_str());
    out.append("}");
    out
}

/// A JSON array with the given elements.
pub fn arr_of(ms: &Vec<String>) -> (r: String)
    ensures
        r@ == jarr(views_of(ms@)),
{
    let mut out = ("[").to_owned();
    let body = join_with(ms, ",");
    out.append(body.as_str());
    out.append("]");
    out
}

/// An array of JSON string literals.
pub fn str_arr_of(ts: &Vec<String>) -> (r: String)
    ensures
        r@ == jarr(jstr_seq(views_of(ts@))),
{
    let mut ms: Vec<String> = Vec::new();
    let mut i: usize = 0;
    while i < ts.len()
        invariant
            i <= ts@.len(),
            views_of(ms@) =~= jstr_seq(views_of(ts@)).subrange(0, i as int),
        decreases ts@.len() - i,
    {
        let piece = jstr_of(ts[i].as_str());
        proof {
            assert(views_of(ms@.push(piece)) =~= views_of(ms@).push(piece@));
            assert(jstr_seq(views_of(ts@)).subrange(0, i + 1) =~= jstr_seq(
                views_of(ts@),
            ).subrange(0, i as int).push(jstr(ts@[i as int]@)));
        }
        ms.push(piece);
        i = i + 1;
    }
    proof {
        assert(jstr_seq(views_of(ts@)).subrange(0, ts@.len() as int) =~= jstr_seq(views_of(ts@)));
    }
    arr_of(&ms)
}

/// The members of a contact object.
pub open spec fn spec_contact_members(c: ContactView) -> Seq<Seq<char>> {
    (if c.name is Some {
        seq![("\"name\":")@ + jstr(c.name->0)]
    } else {
        Seq::empty()
    }) + (if c.url is Some {
        seq![("\"url\":")@ + jstr(c.url->0)]
    } else {
        Seq::empty()
    }) + (if c.email is Some {
        seq![("\"email\":")@ + jstr(c.email->0)]
    } else {
        Seq::empty()
    })
}

/// The JSON text of a contact object.
pub open spec fn spec_contact_json(c: ContactView) -> Seq<char> {
    jobj(spec_contact_members(c))
}

/// The JSON text of a contact object.
pub fn contact_json(c: &Contact) -> (r: String)
    ensures
        r@ == spec_contact_json(c@),
{
    let mut ms: Vec<String> = Vec::new();
    if let Some(name) = &c.name {
        ms.push(glue("\"name\":", jstr_of(name.as_str())));
    }
    if let Some(url) = &c.url {
        ms.push(glue("\"url\":", jstr_of(url.as_str())));
    }
    if let Some(email) = &c.email {
        ms.push(glue("\"email\":", jstr_of(email.as_str())));
    }
    proof {
        assert(views_of(ms@) =~= spec_contact_members(c@));
    }
    obj_of(&ms)
}

/// The members of a license object.
pub open spec fn spec_license_members(l: LicenseView) -> Seq<Seq<char>> {
    seq![("\"name\":")@ + jstr(l.name)] + (if l.url is Some {
        seq![("\"url\":")@ + jstr(l.url->0)]
    } else {
        Seq::empty()
    })
}

/// The JSON text of a license object.
pub open spec fn spec_license_json(l: LicenseView) -> Seq<char> {
    jobj(spec_license_members(l))
}

/// The JSON text of a license object.
pub fn license_json(l: &License) -> (r: String)
    ensures
        r@ == spec_license_json(l@),
{
    let mut ms: Vec<String> = Vec::new();
    ms.push(glue("\"name\":", jstr_of(l.name.as_str())));
    if let Some(url) = &l.url {
        ms.push(glue("\"url\":", jstr_of(url.as_str())));
    }
    proof {
        assert(views_of(ms@) =~= spec_license_members(l@));
    }
    obj_of(&ms)
}

/// The members of an external-documentation object.
pub open spec fn spec_external_docs_members(d: ExternalDocsView) -> Seq<Seq<char>> {
    seq![("\"url\":")@ + jstr(d.url)] + (if d.description is Some {
        seq![("\"description\":")@ + jstr(d.description->0)]
    } else {
        Seq::empty()
    })
}

/// The JSON text of an external-documentation object.
pub open spec fn spec_external_docs_json(d: ExternalDocsView) -> Seq<char> {
    jobj(spec_external_docs_members(d))
}

/// The JSON text of an external-documentation object.
pub fn external_docs_json(d: &ExternalDocs) -> (r: String)
    ensures
        r@ == spec_external_docs_json(d@),
{
    let mut ms: Vec<String> = Vec::new();
    ms.push(glue("\"url\":", jstr_of(d.url.as_str())));
    if let Some(desc) = &d.description {
        ms.push(glue("\"description\":", jstr_of(desc.as_str())));
    }
    proof {
        assert(views_of(ms@) =~= spec_external_docs_members(d@));
    }
    obj_of(&ms)
}

/// The members of a tag object.
pub open spec fn spec_tag_members(t: TagView) -> Seq<Seq<char>> {
    seq![("\"name\":")@ + jstr(t.name)] + (if t.description is Some {
        seq![("\"description\":")@ + jstr(t.description->0)]
    } else {
        Seq::empty()
    }) + (if t.external_docs is Some {
        seq![("\"externalDocs\":")@ + spec_external_docs_json(t.external_docs->0)]
    } else {
        Seq::empty()
    })
}

/// The JSON text of a tag object.
pub open spec fn spec_tag_json(t: TagView) -> Seq<char> {
    jobj(spec_tag_members(t))
}

/// The JSON text of a tag object.
pub fn tag_json(t: &Tag) -> (r: String)
    ensures
        r@ == spec_tag_json(t@),
{
    let mut ms: Vec<String> = Vec::new();
    ms.push(glue("\"name\":", jstr_of(t.name.as_str())));
    if let Some(desc) = &t.description {
        ms.push(glue("\"description\":", jstr_of(desc.as_str())));
    }
    if let Some(docs) = &t.external_docs {
        ms.push(glue("\"externalDocs\":", external_docs_json(docs)));
    }
    proof {
        assert(views_of(ms@) =~= spec_tag_members(t@));
    }
    obj_of(&ms)
}

/// The members of an info object.
pub open spec fn spec_info_members(i: InfoView) -> Seq<Seq<char>> {
    seq![("\"title\":")@ + jstr(i.title), ("\"version\":")@ + jstr(i.version)] + (
    if i.description is Some {
        seq![("\"description\":")@ + jstr(i.description->0)]
    } else {
        Seq::empty()
    }) + (if i.terms_of_service is Some {
        seq![("\"termsOfService\":")@ + jstr(i.terms_of_service->0)]
    } else {
        Seq::empty()
    }) + (if i.contact is Some {
        seq![("\"contact\":")@ + spec_contact_json(i.contact->0)]
    } else {
        Seq::empty()
    }) + (if i.license is Some {
        seq![("\"license\":")@ + spec_license_json(i.license->0)]
    } else {
        Seq::empty()
    })
}

/// The JSON text of an info object.
pub open spec fn spec_info_json(i: InfoView) -> Seq<char> {
    jobj(spec_info_members(i))
}

/// The JSON text of an info object.
pub fn info_json(i: &Info) -> (r: String)
    ensures
        r@ == spec_info_json(i@),
{
    let mut ms: Vec<String> = Vec::new();
    ms.push(glue("\"title\":", jstr_of(i.title.as_str())));
    ms.push(glue("\"version\":", jstr_of(i.version.as_str())));
    if let Some(desc) = &i.description {
        ms.push(glue("\"description\":", jstr_of(desc.as_str())));
    }
    if let Some(tos) = &i.terms_of_service {
        ms.push(glue("\"termsOfService\":", jstr_of(tos.as_str())));
    }
    if let Some(contact) = &i.contact {
        ms.push(glue("\"contact\":", contact_json(contact)));
    }
    if let Some(license) = &i.license {
        ms.push(glue("\"license\":", license_json(license)));
    }
    proof {
        assert(views_of(ms@) =~= spec_info_members(i@));
    }
    obj_of(&ms)
}

/// The JSON text of one property of a flat object schema.
pub open spec fn spec_property_schema_json(p: PropertySchemaView) -> Seq<char> {
    jobj(
        seq![
            ("\"type\":")@ + jstr(p.schema_type),
            ("\"description\":")@ + jstr(p.description),
        ],
    )
}

/// The JSON text of one property of a flat object schema.
pub fn property_schema_json(p: &PropertySchema) -> (r: String)
    ensures
        r@ == spec_property_schema_json(p@),
{
    let mut ms: Vec<String> = Vec::new();
    ms.push(glue("\"type\":", jstr_of(p.schema_type.as_str())));
    ms.push(glue("\"description\":", jstr_of(p.description.as_str())));
    proof {
        assert(views_of(ms@) =~= seq![
            ("\"type\":")@ + jstr(p@.schema_type),
            ("\"description\":")@ + jstr(p@.description),
        ]);
    }
    obj_of(&ms)
}

/// The members of a properties object.
pub open spec fn spec_properties_members(
    ps: Seq<(Seq<char>, PropertySchemaView)>,
) -> Seq<Seq<char>> {
    Seq::new(ps.len(), |i: int| jstr(ps[i].0) + (":")@ + spec_property_schema_json(ps[i].1))
}

/// The JSON text of a properties object.
pub fn properties_json(ps: &Vec<(String, PropertySchema)>) -> (r: String)
    ensures
        r@ == jobj(spec_properties_members(pair_views(ps@))),
{
    let mut ms: Vec<String> = Vec::new();
    let mut i: usize = 0;
    while i < ps.len()
        invariant
            i <= ps@.len(),
            views_of(ms@) =~= spec_properties_members(pair_views(ps@)).subrange(0, i as int),
        decreases ps@.len() - i,
    {
        let piece = glue_str(jstr_of(ps[i].0.as_str()), ":", property_schema_json(&ps[i].1));
        proof {
            assert(views_of(ms@.push(piece)) =~= views_of(ms@).push(piece@));
            assert(spec_properties_members(pair_views(ps@)).subrange(0, i + 1)
                =~= spec_properties_members(pair_views(ps@)).subrange(0, i as int).push(
                spec_properties_members(pair_views(ps@))[i as int],
            ));
        }
        ms.push(piece);
        i = i + 1;
    }
    proof {
        assert(spec_properties_members(pair_views(ps@)).subrange(0, ps@.len() as int)
            =~= spec_properties_members(pair_views(ps@)));
    }
    obj_of(&ms)
}

/// Two pieces glued around a fixed separator.
pub fn glue_str(left: String, mid: &str, right: String) -> (r: String)
    ensures
        r@ == left@ + mid@ + right@,
{
    let mut out = left;
    out.append(mid);
    out.append(right.as_str());
    out
}

/// The members of a schema object.
pub open spec fn spec_schema_members(s: SchemaView) -> Seq<Seq<char>> {
    (if s.schema_type is Some {
        seq![("\"type\":")@ + jstr(s.schema_type->0)]
    } else {
        Seq::empty()
    }) + (if s.example is Some {
        seq![("\"example\":")@ + jstr(s.example->0)]
    } else {
        Seq::empty()
    }) + (if s.default_value is Some {
        seq![("\"default\":")@ + jstr(s.default_value->0)]
    } else {
        Seq::empty()
    }) + (if s.title is Some {
        seq![("\"title\":")@ + jstr(s.title->0)]
    } else {
        Seq::empty()
    }) + (if s.description is Some {
        seq![("\"description\":")@ + jstr(s.description->0)]
    } else {
        Seq::empty()
    }) + (if s.properties is Some {
        seq![("\"properties\":")@ + jobj(spec_properties_members(s.properties->0))]
    } else {
        Seq::empty()
    }) + (if s.required is Some {
        seq![("\"required\":")@ + jarr(jstr_seq(s.required->0))]
    } else {
        Seq::empty()
    }) + (if s.reference is Some {
        seq![("\"$ref\":")@ + jstr(s.reference->0)]
    } else {
        Seq::empty()
    })
}

/// The JSON text of a schema object.
pub open spec fn spec_schema_json(s: SchemaView) -> Seq<char> {
    jobj(spec_schema_members(s))
}

/// The JSON text of a schema object.
#[verifier::rlimit(100)]
pub fn schema_json(s: &Schema) -> (r: String)
    ensures
        r@ == spec_schema_json(s@),
{
    let mut ms: Vec<String> = Vec::new();
    if let Some(t) = &s.schema_type {
        ms.push(glue("\"type\":", jstr_of(t.as_str())));
    }
    if let Some(e) = &s.example {
        ms.push(glue("\"example\":", jstr_of(e.as_str())));
    }
    if let Some(d) = &s.default_value {
        ms.push(glue("\"default\":", jstr_of(d.as_str())));
    }
    if let Some(t) = &s.title {
        ms.push(glue("\"title\":", jstr_of(t.as_str())));
    }
    if let Some(d) = &s.description {
        ms.push(glue("\"description\":", jstr_of(d.as_str())));
    }
    if let Some(ps) = &s.properties {
        ms.push(glue("\"properties\":", properties_json(ps)));
    }
    if let Some(rs) = &s.required {
        ms.push(glue("\"required\":", str_arr_of(rs)));
    }
    if let Some(r) = &s.reference {
        ms.push(glue("\"$ref\":", jstr_of(r.as_str())));
    }
    proof {
        assert(views_of(ms@) =~= spec_schema_members(s@));
    }
    obj_of(&ms)
}

/// The JSON text of a schema or a reference to one.
pub open spec fn spec_ref_or_schema_json(r: ReferenceOrView<SchemaView>) -> Seq<char> {
    match r {
        ReferenceOrView::Reference(target) => jobj(seq![("\"$ref\":")@ + jstr(target)]),
        ReferenceOrView::Item(s) => spec_schema_json(s),
    }
}

/// The JSON text of a schema or a reference to one.
pub fn ref_or_schema_json(r: &ReferenceOr<Schema>) -> (res: String)
    ensures
        res@ == spec_ref_or_schema_json(r@),
{
    match r {
        ReferenceOr::Reference { reference } => {
            let mut ms: Vec<String> = Vec::new();
            ms.push(glue("\"$ref\":", jstr_of(reference.as_str())));
            proof {
                assert(views_of(ms@) =~= seq![("\"$ref\":")@ + jstr(reference@)]);
            }
            obj_of(&ms)
        },
        ReferenceOr::Item(s) => schema_json(s),
    }
}

/// The members of a media-type object.
pub open spec fn spec_media_type_members(m: MediaTypeView) -> Seq<Seq<char>> {
    if m.schema is Some {
        seq![("\"schema\":")@ + spec_ref_or_schema_json(m.schema->0)]
    } else {
        Seq::empty()
    }
}

/// The JSON text of a media-type object.
pub open spec fn spec_media_type_json(m: MediaTypeView) -> Seq<char> {
    jobj(spec_media_type_members(m))
}

/// The JSON text of a media-type object.
pub fn media_type_json(m: &MediaType) -> (r: String)
    ensures
        r@ == spec_media_type_json(m@),
{
    let mut ms: Vec<String> = Vec::new();
    if let Some(s) = &m.schema {
        ms.push(glue("\"schema\":", ref_or_schema_json(s)));
    }
    proof {
        assert(views_of(ms@) =~= spec_media_type_members(m@));
    }
    obj_of(&ms)
}

/// The members of a content object: media types keyed by content type.
pub open spec fn spec_content_members(cs: Seq<(Seq<char>, MediaTypeView)>) -> Seq<Seq<char>> {
    Seq::new(cs.len(), |i: int| jstr(cs[i].0) + (":")@ + spec_media_type_json(cs[i].1))
}

/// The JSON text of a content object.
pub fn content_json(cs: &Vec<(String, MediaType)>) -> (r: String)
    ensures
        r@ == jobj(spec_content_members(pair_views(cs@))),
{
    let mut ms: Vec<String> = Vec::new();
    let mut i: usize = 0;
    while i < cs.len()
        invariant
            i <= cs@.len(),
            views_of(ms@) =~= spec_content_members(pair_views(cs@)).subrange(0, i as int),
        decreases cs@.len() - i,
    {
        let piece = glue_str(jstr_of(cs[i].0.as_str()), ":", media_type_json(&cs[i].1));
        proof {
            assert(views_of(ms@.push(piece)) =~= views_of(ms@).push(piece@));
            assert(spec_content_members(pair_views(cs@)).subrange(0, i + 1) =~= spec_content_members(
                pair_views(cs@),
            ).subrange(0, i as int).push(spec_content_members(pair_views(cs@))[i as int]));
        }
        ms.push(piece);
        i = i + 1;
    }
    proof {
        assert(spec_content_members(pair_views(cs@)).subrange(0, cs@.len() as int)
            =~= spec_content_members(pair_views(cs@)));
    }
    obj_of(&ms)
}

/// The members of a response object.
pub open spec fn spec_response_members(r: ResponseView) -> Seq<Seq<char>> {
    seq![("\"description\":")@ + jstr(r.description)] + (if r.content is Some {
        seq![("\"content\":")@ + jobj(spec_content_members(r.content->0))]
    } else {
        Seq::empty()
    })
}

/// The JSON text of a response object.
pub open spec fn spec_response_json(r: ResponseView) -> Seq<char> {
    jobj(spec_response_members(r))
}

/// The JSON text of a response object.
pub fn response_json(r: &Response) -> (res: String)
    ensures
        res@ == spec_response_json(r@),
{
    let mut ms: Vec<String> = Vec::new();
    ms.push(glue("\"description\":", jstr_of(r.description.as_str())));
    if let Some(cs) = &r.content {
        ms.push(glue("\"content\":", content_json(cs)));
    }
    proof {
        assert(views_of(ms@) =~= spec_response_members(r@));
    }
    obj_of(&ms)
}

/// The members of a responses object: responses keyed by status code.
pub open spec fn spec_responses_members(rs: Seq<(Seq<char>, ResponseView)>) -> Seq<Seq<char>> {
    Seq::new(rs.len(), |i: int| jstr(rs[i].0) + (":")@ + spec_response_json(rs[i].1))
}

/// The JSON text of a responses object.
pub fn responses_json(rs: &Vec<(String, Response)>) -> (r: String)
    ensures
        r@ == jobj(spec_responses_members(pair_views(rs@))),
{
    let mut ms: Vec<String> = Vec::new();
    let mut i: usize = 0;
    while i < rs.len()
        invariant
            i <= rs@.len(),
            views_of(ms@) =~= spec_responses_members(pair_views(rs@)).subrange(0, i as int),
        decreases rs@.len() - i,
    {
        let piece = glue_str(jstr_of(rs[i].0.as_str()), ":", response_json(&rs[i].1));
        proof {
            assert(views_of(ms@.push(piece)) =~= views_of(ms@).push(piece@));
            assert(spec_responses_members(pair_views(rs@)).subrange(0, i + 1)
                =~= spec_responses_members(pair_views(rs@)).subrange(0, i as int).push(
                spec_responses_members(pair_views(rs@))[i as int],
            ));
        }
        ms.push(piece);
        i = i + 1;
    }
    proof {
        assert(spec_responses_members(pair_views(rs@)).subrange(0, rs@.len() as int)
            =~= spec_responses_members(pair_views(rs@)));
    }
    obj_of(&ms)
}

/// The members of a parameter object.
pub open spec fn spec_parameter_members(p: ParameterView) -> Seq<Seq<char>> {
    seq![("\"name\":")@ + jstr(p.name), ("\"in\":")@ + jstr(p.location)] + (
    if p.description is Some {
        seq![("\"description\":")@ + jstr(p.description->0)]
    } else {
        Seq::empty()
    }) + seq![
        ("\"required\":")@ + jbool(p.required),
        ("\"schema\":")@ + spec_ref_or_schema_json(p.schema),
    ]
}

/// The JSON text of a parameter object.
pub open spec fn spec_parameter_json(p: ParameterView) -> Seq<char> {
    jobj(spec_parameter_members(p))
}

/// The JSON text of a parameter object.
pub fn parameter_json(p: &Parameter) -> (r: String)
    ensures
        r@ == spec_parameter_json(p@),
{
    let mut ms: Vec<String> = Vec::new();
    ms.push(glue("\"name\":", jstr_of(p.name.as_str())));
    ms.push(glue("\"in\":", jstr_of(p.location.as_str())));
    if let Some(desc) = &p.description {
        ms.push(glue("\"description\":", jstr_of(desc.as_str())));
    }
    let req: &str = if p.required {
        "true"
    } else {
        "false"
    };
    ms.push(glue("\"required\":", req.to_owned()));
    ms.push(glue("\"schema\":", ref_or_schema_json(&p.schema)));
    proof {
        assert(views_of(ms@) =~= spec_parameter_members(p@));
    }
    obj_of(&ms)
}

/// The elements of a parameters array.
pub open spec fn spec_parameters_elems(ps: Seq<ParameterView>) -> Seq<Seq<char>> {
    Seq::new(ps.len(), |i: int| spec_parameter_json(ps[i]))
}

/// The JSON text of a parameters array.
pub fn parameters_json(ps: &Vec<Parameter>) -> (r: String)
    ensures
        r@ == jarr(spec_parameters_elems(Seq::new(ps@.len(), |i: int| ps@[i]@))),
{
    let ghost gps = Seq::new(ps@.len(), |i: int| ps@[i]@);
    let mut ms: Vec<String> = Vec::new();
    let mut i: usize = 0;
    while i < ps.len()
        invariant
            gps == Seq::new(ps@.len(), |i: int| ps@[i]@),
            i <= ps@.len(),
            views_of(ms@) =~= spec_parameters_elems(gps).subrange(0, i as int),
        decreases ps@.len() - i,
    {
        let piece = parameter_json(&ps[i]);
        proof {
            assert(views_of(ms@.push(piece)) =~= views_of(ms@).push(piece@));
            assert(spec_parameters_elems(gps).subrange(0, i + 1) =~= spec_parameters_elems(
                gps,
            ).subrange(0, i as int).push(spec_parameters_elems(gps)[i as int]));
        }
        ms.push(piece);
        i = i + 1;
    }
    proof {
        assert(spec_parameters_elems(gps).subrange(0, ps@.len() as int) =~= spec_parameters_elems(
            gps,
        ));
    }
    arr_of(&ms)
}

/// The members of a request-body object.
pub open spec fn spec_request_body_members(b: RequestBodyView) -> Seq<Seq<char>> {
    seq![("\"required\":")@ + jbool(b.required)] + (if b.description is Some {
        seq![("\"description\":")@ + jstr(b.description->0)]
    } else {
        Seq::empty()
    }) + seq![("\"content\":")@ + jobj(spec_content_members(b.content))]
}

/// The JSON text of a request-body object.
pub open spec fn spec_request_body_json(b: RequestBodyView) -> Seq<char> {
    jobj(spec_request_body_members(b))
}

/// The JSON text of a request-body object.
pub fn request_body_json(b: &RequestBody) -> (r: String)
    ensures
        r@ == spec_request_body_json(b@),
{
    let mut ms: Vec<String> = Vec::new();
    let req: &str = if b.required {
        "true"
    } else {
        "false"
    };
    ms.push(glue("\"required\":", req.to_owned()));
    if let Some(desc) = &b.description {
        ms.push(glue("\"description\":", jstr_of(desc.as_str())));
    }
    ms.push(glue("\"content\":", content_json(&b.content)));
    proof {
        assert(views_of(ms@) =~= spec_request_body_members(b@));
    }
    obj_of(&ms)
}

/// The JSON text of one security requirement: the scheme name mapped to
/// its required scopes.
pub open spec fn spec_security_requirement_json(s: SecurityRequirementView) -> Seq<char> {
    jobj(seq![jstr(s.scheme) + (":")@ + jarr(jstr_seq(s.scopes))])
}

/// The JSON text of one security requirement.
pub fn security_requirement_json(s: &SecurityRequirement) -> (r: String)
    ensures
        r@ == spec_security_requirement_json(s@),
{
    let mut ms: Vec<String> = Vec::new();
    let piece = glue_str(jstr_of(s.scheme.as_str()), ":", str_arr_of(&s.scopes));
    ms.push(piece);
    proof {
        assert(views_of(ms@) =~= seq![jstr(s@.scheme) + (":")@ + jarr(jstr_seq(s@.scopes))]);
    }
    obj_of(&ms)
}

/// The elements of a security array.
pub open spec fn spec_security_elems(ss: Seq<SecurityRequirementView>) -> Seq<Seq<char>> {
    Seq::new(ss.len(), |i: int| spec_security_requirement_json(ss[i]))
}

/// The JSON text of a security array.
pub fn security_json(ss: &Vec<SecurityRequirement>) -> (r: String)
    ensures
        r@ == jarr(spec_security_elems(Seq::new(ss@.len(), |i: int| ss@[i]@))),
{
    let ghost gss = Seq::new(ss@.len(), |i: int| ss@[i]@);
    let mut ms: Vec<String> = Vec::new();
    let mut i: usize = 0;
    while i < ss.len()
        invariant
            gss == Seq::new(ss@.len(), |i: int| ss@[i]@),
            i <= ss@.len(),
            views_of(ms@) =~= spec_security_elems(gss).subrange(0, i as int),
        decreases ss@.len() - i,
    {
        let piece = security_requirement_json(&ss[i]);
        proof {
            assert(views_of(ms@.push(piece)) =~= views_of(ms@).push(piece@));
            assert(spec_security_elems(gss).subrange(0, i + 1) =~= spec_security_elems(
                gss,
            ).subrange(0, i as int).push(spec_security_elems(gss)[i as int]));
        }
        ms.push(piece);
        i = i + 1;
    }
    proof {
        assert(spec_security_elems(gss).subrange(0, ss@.len() as int) =~= spec_security_elems(gss));
    }
    arr_of(&ms)
}

/// The members of an operation object.
pub open spec fn spec_operation_members(o: OperationView) -> Seq<Seq<char>> {
    (if o.summary is Some {
        seq![("\"summary\":")@ + jstr(o.summary->0)]
    } else {
        Seq::empty()
    }) + (if o.description is Some {
        seq![("\"description\":")@ + jstr(o.description->0)]
    } else {
        Seq::empty()
    }) + (if o.handler_function is Some {
        seq![("\"x-handler-function\":")@ + jstr(o.handler_function->0)]
    } else {
        Seq::empty()
    }) + (if o.tags.len() > 0 {
        seq![("\"tags\":")@ + jarr(jstr_seq(o.tags))]
    } else {
        Seq::empty()
    }) + (if o.parameters.len() > 0 {
        seq![("\"parameters\":")@ + jarr(spec_parameters_elems(o.parameters))]
    } else {
        Seq::empty()
    }) + (if o.request_body is Some {
        seq![("\"requestBody\":")@ + spec_request_body_json(o.request_body->0)]
    } else {
        Seq::empty()
    }) + seq![("\"responses\":")@ + jobj(spec_responses_members(o.responses))] + (
    if o.security is Some {
        seq![("\"security\":")@ + jarr(spec_security_elems(o.security->0))]
    } else {
        Seq::empty()
    })
}

/// The JSON text of an operation object.
pub open spec fn spec_operation_json(o: OperationView) -> Seq<char> {
    jobj(spec_operation_members(o))
}

/// The JSON text of an operation object.
#[verifier::rlimit(100)]
pub fn operation_json(o: &Operation) -> (r: String)
    ensures
        r@ == spec_operation_json(o@),
{
    let mut ms: Vec<String> = Vec::new();
    if let Some(summary) = &o.summary {
        ms.push(glue("\"summary\":", jstr_of(summary.as_str())));
    }
    if let Some(desc) = &o.description {
        ms.push(glue("\"description\":", jstr_of(desc.as_str())));
    }
    if let Some(handler) = &o.handler_function {
        ms.push(glue("\"x-handler-function\":", jstr_of(handler.as_str())));
    }
    if o.tags.len() > 0 {
        ms.push(glue("\"tags\":", str_arr_of(&o.tags)));
    }
    if o.parameters.len() > 0 {
        ms.push(glue("\"parameters\":", parameters_json(&o.parameters)));
    }
    if let Some(body) = &o.request_body {
        ms.push(glue("\"requestBody\":", request_body_json(body)));
    }
    ms.push(glue("\"responses\":", responses_json(&o.responses)));
    if let Some(sec) = &o.security {
        ms.push(glue("\"security\":", security_json(sec)));
    }
    proof {
        assert(views_of(ms@) =~= spec_operation_members(o@));
    }
    obj_of(&ms)
}

/// One method slot rendered: nothing for an empty slot, one member for a
/// populated one.
pub open spec fn spec_slot_member(key: Seq<char>, op: Option<OperationView>) -> Seq<Seq<char>> {
    match op {
        Some(o) => seq![key + spec_operation_json(o)],
        None => Seq::empty(),
    }
}

/// The members of a path-item object, one per populated method slot.
pub open spec fn spec_path_item_members(p: PathItemView) -> Seq<Seq<char>> {
    spec_slot_member(("\"get\":")@, p.get) + spec_slot_member(("\"post\":")@, p.post)
        + spec_slot_member(("\"put\":")@, p.put) + spec_slot_member(("\"delete\":")@, p.delete)
        + spec_slot_member(("\"patch\":")@, p.patch) + spec_slot_member(("\"head\":")@, p.head)
        + spec_slot_member(("\"options\":")@, p.options)
}

/// The JSON text of a path-item object.
pub open spec fn spec_path_item_json(p: PathItemView) -> Seq<char> {
    jobj(spec_path_item_members(p))
}

/// Appends one method slot's member, if the slot is populated.
fn push_slot_member(ms: &mut Vec<String>, key: &str, op: &Option<Operation>)
    ensures
        views_of(final(ms)@) == views_of(old(ms)@) + spec_slot_member(
            key@,
            crate::openapi::opt_view(*op),
        ),
{
    match op {
        Some(o) => {
            let piece = glue(key, operation_json(o));
            proof {
                assert(views_of(ms@.push(piece)) =~= views_of(ms@) + seq![piece@]);
            }
            ms.push(piece);
        },
        None => {
            proof {
                assert(views_of(ms@) =~= views_of(ms@) + Seq::<Seq<char>>::empty());
            }
        },
    }
}

/// The JSON text of a path-item object.
pub fn path_item_json(p: &PathItem) -> (r: String)
    ensures
        r@ == spec_path_item_json(p@),
{
    let mut ms: Vec<String> = Vec::new();
    proof {
        assert(views_of(ms@) =~= Seq::<Seq<char>>::empty());
    }
    push_slot_member(&mut ms, "\"get\":", &p.get);
    push_slot_member(&mut ms, "\"post\":", &p.post);
    push_slot_member(&mut ms, "\"put\":", &p.put);
    push_slot_member(&mut ms, "\"delete\":", &p.delete);
    push_slot_member(&mut ms, "\"patch\":", &p.patch);
    push_slot_member(&mut ms, "\"head\":", &p.head);
    push_slot_member(&mut ms, "\"options\":", &p.options);
    proof {
        assert(views_of(ms@) =~= spec_path_item_members(p@));
    }
    obj_of(&ms)
}

/// The members of the paths object: path items keyed by converted path.
pub open spec fn spec_paths_members(ps: Seq<(Seq<char>, PathItemView)>) -> Seq<Seq<char>> {
    Seq::new(ps.len(), |i: int| jstr(ps[i].0) + (":")@ + spec_path_item_json(ps[i].1))
}

/// The JSON text of the paths object.
pub fn paths_json(ps: &Vec<(String, PathItem)>) -> (r: String)
    ensures
        r@ == jobj(spec_paths_members(pair_views(ps@))),
{
    let mut ms: Vec<String> = Vec::new();
    let mut i: usize = 0;
    while i < ps.len()
        invariant
            i <= ps@.len(),
            views_of(ms@) =~= spec_paths_members(pair_views(ps@)).subrange(0, i as int),
        decreases ps@.len() - i,
    {
        let piece = glue_str(jstr_of(ps[i].0.as_str()), ":", path_item_json(&ps[i].1));
        proof {
            assert(views_of(ms@.push(piece)) =~= views_of(ms@).push(piece@));
            assert(spec_paths_members(pair_views(ps@)).subrange(0, i + 1) =~= spec_paths_members(
                pair_views(ps@),
            ).subrange(0, i as int).push(spec_paths_members(pair_views(ps@))[i as int]));
        }
        ms.push(piece);
        i = i + 1;
    }
    proof {
        assert(spec_paths_members(pair_views(ps@)).subrange(0, ps@.len() as int)
            =~= spec_paths_members(pair_views(ps@)));
    }
    obj_of(&ms)
}

/// The members of a security-scheme object.
pub open spec fn spec_security_scheme_members(s: SecuritySchemeView) -> Seq<Seq<char>> {
    seq![("\"type\":")@ + jstr(s.scheme_type)] + (if s.description is Some {
        seq![("\"description\":")@ + jstr(s.description->0)]
    } else {
        Seq::empty()
    }) + (if s.name is Some {
        seq![("\"name\":")@ + jstr(s.name->0)]
    } else {
        Seq::empty()
    }) + (if s.location is Some {
        seq![("\"in\":")@ + jstr(s.location->0)]
    } else {
        Seq::empty()
    }) + (if s.scheme is Some {
        seq![("\"scheme\":")@ + jstr(s.scheme->0)]
    } else {
        Seq::empty()
    }) + (if s.bearer_format is Some {
        seq![("\"bearerFormat\":")@ + jstr(s.bearer_format->0)]
    } else {
        Seq::empty()
    })
}

/// The JSON text of a security-scheme object.
pub open spec fn spec_security_scheme_json(s: SecuritySchemeView) -> Seq<char> {
    jobj(spec_security_scheme_members(s))
}

/// The JSON text of a security-scheme object.
pub fn security_scheme_json(s: &SecurityScheme) -> (r: String)
    ensures
        r@ == spec_security_scheme_json(s@),
{
    let mut ms: Vec<String> = Vec::new();
    ms.push(glue("\"type\":", jstr_of(s.scheme_type.as_str())));
    if let Some(desc) = &s.description {
        ms.push(glue("\"description\":", jstr_of(desc.as_str())));
    }
    if let Some(name) = &s.name {
        ms.push(glue("\"name\":", jstr_of(name.as_str())));
    }
    if let Some(location) = &s.location {
        ms.push(glue("\"in\":", jstr_of(location.as_str())));
    }
    if let Some(scheme) = &s.scheme {
        ms.push(glue("\"scheme\":", jstr_of(scheme.as_str())));
    }
    if let Some(bf) = &s.bearer_format {
        ms.push(glue("\"bearerFormat\":", jstr_of(bf.as_str())));
    }
    proof {
        assert(views_of(ms@) =~= spec_security_scheme_members(s@));
    }
    obj_of(&ms)
}

/// The members of the security-schemes object, keyed by scheme name.
pub open spec fn spec_security_schemes_members(
    ss: Seq<(Seq<char>, SecuritySchemeView)>,
) -> Seq<Seq<char>> {
    Seq::new(ss.len(), |i: int| jstr(ss[i].0) + (":")@ + spec_security_scheme_json(ss[i].1))
}

/// The JSON text of the security-schemes object.
pub fn security_schemes_json(ss: &Vec<(String, SecurityScheme)>) -> (r: String)
    ensures
        r@ == jobj(spec_security_schemes_members(pair_views(ss@))),
{
    let mut ms: Vec<String> = Vec::new();
    let mut i: usize = 0;
    while i < ss.len()
        invariant
            i <= ss@.len(),
            views_of(ms@) =~= spec_security_schemes_members(pair_views(ss@)).subrange(0, i as int),
        decreases ss@.len() - i,
    {
        let piece = glue_str(jstr_of(ss[i].0.as_str()), ":", security_scheme_json(&ss[i].1));
        proof {
            assert(views_of(ms@.push(piece)) =~= views_of(ms@).push(piece@));
            assert(spec_security_schemes_members(pair_views(ss@)).subrange(0, i + 1)
                =~= spec_security_schemes_members(pair_views(ss@)).subrange(0, i as int).push(
                spec_security_schemes_members(pair_views(ss@))[i as int],
            ));
        }
        ms.push(piece);
        i = i + 1;
    }
    proof {
        assert(spec_security_schemes_members(pair_views(ss@)).subrange(0, ss@.len() as int)
            =~= spec_security_schemes_members(pair_views(ss@)));
    }
    obj_of(&ms)
}

/// The members of the schemas object: raw registered JSON text keyed by
/// schema name.
pub open spec fn spec_schemas_members(ss: Seq<(Seq<char>, Seq<char>)>) -> Seq<Seq<char>> {
    Seq::new(ss.len(), |i: int| jstr(ss[i].0) + (":")@ + ss[i].1)
}

/// The JSON text of the schemas object.
pub fn schemas_json(ss: &Vec<(String, String)>) -> (r: String)
    ensures
        r@ == jobj(spec_schemas_members(pair_views(ss@))),
{
    let mut ms: Vec<String> = Vec::new();
    let mut i: usize = 0;
    while i < ss.len()
        invariant
            i <= ss@.len(),
            views_of(ms@) =~= spec_schemas_members(pair_views(ss@)).subrange(0, i as int),
        decreases ss@.len() - i,
    {
        let piece = glue_str(jstr_of(ss[i].0.as_str()), ":", ss[i].1.clone());
        proof {
            assert(views_of(ms@.push(piece)) =~= views_of(ms@).push(piece@));
            assert(spec_schemas_members(pair_views(ss@)).subrange(0, i + 1)
                =~= spec_schemas_members(pair_views(ss@)).subrange(0, i as int).push(
                spec_schemas_members(pair_views(ss@))[i as int],
            ));
        }
        ms.push(piece);
        i = i + 1;
    }
    proof {
        assert(spec_schemas_members(pair_views(ss@)).subrange(0, ss@.len() as int)
            =~= spec_schemas_members(pair_views(ss@)));
    }
    obj_of(&ms)
}

/// The members of the components object.
pub open spec fn spec_components_members(c: ComponentsView) -> Seq<Seq<char>> {
    (if c.schemas.len() > 0 {
        seq![("\"schemas\":")@ + jobj(spec_schemas_members(c.schemas))]
    } else {
        Seq::empty()
    }) + (if c.security_schemes is Some {
        seq![("\"securitySchemes\":")@ + jobj(spec_security_schemes_members(c.security_schemes->0))]
    } else {
        Seq::empty()
    })
}

/// The JSON text of the components object.
pub open spec fn spec_components_json(c: ComponentsView) -> Seq<char> {
    jobj(spec_components_members(c))
}

/// The JSON text of the components object.
pub fn components_json(c: &Components) -> (r: String)
    ensures
        r@ == spec_components_json(c@),
{
    let mut ms: Vec<String> = Vec::new();
    if c.schemas.len() > 0 {
        ms.push(glue("\"schemas\":", schemas_json(&c.schemas)));
    }
    if let Some(ss) = &c.security_schemes {
        ms.push(glue("\"securitySchemes\":", security_schemes_json(ss)));
    }
    proof {
        assert(views_of(ms@) =~= spec_components_members(c@));
    }
    obj_of(&ms)
}

/// The elements of the tags array.
pub open spec fn spec_tags_elems(ts: Seq<TagView>) -> Seq<Seq<char>> {
    Seq::new(ts.len(), |i: int| spec_tag_json(ts[i]))
}

/// The JSON text of the tags array.
pub fn tags_json(ts: &Vec<Tag>) -> (r: String)
    ensures
        r@ == jarr(spec_tags_elems(Seq::new(ts@.len(), |i: int| ts@[i]@))),
{
    let ghost gts = Seq::new(ts@.len(), |i: int| ts@[i]@);
    let mut ms: Vec<String> = Vec::new();
    let mut i: usize = 0;
    while i < ts.len()
        invariant
            gts == Seq::new(ts@.len(), |i: int| ts@[i]@),
            i <= ts@.len(),
            views_of(ms@) =~= spec_tags_elems(gts).subrange(0, i as int),
        decreases ts@.len() - i,
    {
        let piece = tag_json(&ts[i]);
        proof {
            assert(views_of(ms@.push(piece)) =~= views_of(ms@).push(piece@));
            assert(spec_tags_elems(gts).subrange(0, i + 1) =~= spec_tags_elems(gts).subrange(
                0,
                i as int,
            ).push(spec_tags_elems(gts)[i as int]));
        }
        ms.push(piece);
        i = i + 1;
    }
    proof {
        assert(spec_tags_elems(gts).subrange(0, ts@.len() as int) =~= spec_tags_elems(gts));
    }
    arr_of(&ms)
}

/// The members of the document object.
pub open spec fn spec_document_members(d: OpenAPIView) -> Seq<Seq<char>> {
    seq![
        ("\"openapi\":")@ + jstr(d.openapi),
        ("\"info\":")@ + spec_info_json(d.info),
        ("\"paths\":")@ + jobj(spec_paths_members(d.paths)),
    ] + (if d.components is Some {
        seq![("\"components\":")@ + spec_components_json(d.components->0)]
    } else {
        Seq::empty()
    }) + (if d.tags is Some {
        seq![("\"tags\":")@ + jarr(spec_tags_elems(d.tags->0))]
    } else {
        Seq::empty()
    })
}

/// The JSON text of the whole document.
pub open spec fn spec_document_json(d: OpenAPIView) -> Seq<char> {
    jobj(spec_document_members(d))
}

/// An error in rendering the document; rendering is total, so no value of
/// this type is ever made.
#[derive(Debug)]
pub struct JsonError;

impl OpenAPI {
    /// The JSON text of the whole document. Rendering cannot fail: the
    /// result is always the text determined by the document value.
    pub fn to_json(&self) -> (r: Result<String, JsonError>)
        ensures
            r is Ok,
            r->Ok_0@ == spec_document_json(self@),
    {
        Ok(self.render_json())
    }

    /// The JSON text of the whole document, in the same compact form.
    pub fn to_json_compact(&self) -> (r: Result<String, JsonError>)
        ensures
            r is Ok,
            r->Ok_0@ == spec_document_json(self@),
    {
        Ok(self.render_json())
    }

    /// The JSON text of the whole document.
    pub fn render_json(&self) -> (r: String)
        ensures
            r@ == spec_document_json(self@),
    {
        let mut ms: Vec<String> = Vec::new();
        ms.push(glue("\"openapi\":", jstr_of(self.openapi.as_str())));
        ms.push(glue("\"info\":", info_json(&self.info)));
        ms.push(glue("\"paths\":", paths_json(&self.paths)));
        if let Some(c) = &self.components {
            ms.push(glue("\"components\":", components_json(c)));
        }
        if let Some(ts) = &self.tags {
            ms.push(glue("\"tags\":", tags_json(ts)));
        }
        proof {
            assert(views_of(ms@) =~= spec_document_members(self@));
        }
        obj_of(&ms)
    }
}

} // verus!

