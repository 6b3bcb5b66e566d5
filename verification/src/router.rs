//! The document assembler: a router value that keeps the two registries,
//! the route table and the document metadata, and assembles the final
//! JSON document deterministically from them.

use vstd::prelude::*;
use vstd::string::StringExecFns;

use crate::{Contact, ExternalDocs, HandlerDocumentation, HandlerDocumentationView, Info, License,
    OpenAPI, RouteInfo, RouteInfoView, SchemaRegistration, Tag};
use crate::openapi;
use crate::openapi::{ContactView, ExternalDocsView, InfoView, LicenseView, OperationView,
    ParameterView, PathItemView, ResponseView, SecurityRequirement, SecurityRequirementView,
    SecuritySchemeView, TagView, opt_view, pair_views};
use crate::parse::{spec_params_of_items, spec_has_auth_item, spec_parse_tags, parse_tags_raw,
    parse_parameter_items};
use crate::resolve::{reg_views, spec_request_body, spec_responses_of_raw, spec_default_200,
    spec_closure_has, spec_reg_has, parse_request_body_raw, parse_responses_raw, close_used,
    vec_has_str};
use crate::strings::{spec_split_char, spec_join, spec_ieq, split_char, join_with, str_len,
    char_at, substr, str_eq, eq_ignore_case, views_of, spec_trim_end_char, trim_end_char};
use crate::trusted::{decode_string_array, json_string_array, json_object_text, is_json_object_text};

verus! {

/// The views of a route table.
pub open spec fn route_views(v: Seq<RouteInfo>) -> Seq<RouteInfoView> {
    Seq::new(v.len(), |i: int| v[i]@)
}

/// The views of a handler registry.
pub open spec fn handler_views(v: Seq<HandlerDocumentation>) -> Seq<HandlerDocumentationView> {
    Seq::new(v.len(), |i: int| v[i]@)
}

/// The views of a tag list.
pub open spec fn tag_views(v: Seq<Tag>) -> Seq<TagView> {
    Seq::new(v.len(), |i: int| v[i]@)
}

impl View for Contact {
    type V = ContactView;

    open spec fn view(&self) -> ContactView {
        ContactView {
            name: opt_view(self.name),
            url: opt_view(self.url),
            email: opt_view(self.email),
        }
    }
}

impl View for License {
    type V = LicenseView;

    open spec fn view(&self) -> LicenseView {
        LicenseView { name: self.name@, url: opt_view(self.url) }
    }
}

impl View for ExternalDocs {
    type V = ExternalDocsView;

    open spec fn view(&self) -> ExternalDocsView {
        ExternalDocsView { url: self.url@, description: opt_view(self.description) }
    }
}

impl View for Tag {
    type V = TagView;

    open spec fn view(&self) -> TagView {
        TagView {
            name: self.name@,
            description: opt_view(self.description),
            external_docs: opt_view(self.external_docs),
        }
    }
}

impl View for Info {
    type V = InfoView;

    open spec fn view(&self) -> InfoView {
        InfoView {
            title: self.title@,
            version: self.version@,
            description: opt_view(self.description),
            terms_of_service: opt_view(self.terms_of_service),
            contact: opt_view(self.contact),
            license: opt_view(self.license),
        }
    }
}

/// One segment converted: a leading placeholder marker becomes a brace
/// pair around the rest of the segment.
pub open spec fn spec_convert_segment(seg: Seq<char>) -> Seq<char> {
    if seg.len() > 0 && seg[0] == ':' {
        ("{")@ + seg.subrange(1, seg.len() as int) + ("}")@
    } else {
        seg
    }
}

/// A route path converted to the document's syntax: every segment that
/// begins with the placeholder marker is wrapped in braces instead.
pub open spec fn spec_convert_path(p: Seq<char>) -> Seq<char> {
    let segs = spec_split_char(p, '/');
    spec_join(Seq::new(segs.len(), |i: int| spec_convert_segment(segs[i])), ("/")@)
}

/// A route path converted to the document's syntax.
pub fn convert_path_to_openapi(axum_path: &str) -> (r: String)
    ensures
        r@ == spec_convert_path(axum_path@),
{
    let segs = split_char(axum_path, '/');
    let ghost gsegs = spec_split_char(axum_path@, '/');
    let mut out: Vec<String> = Vec::new();
    let mut i: usize = 0;
    while i < segs.len()
        invariant
            gsegs == views_of(segs@),
            i <= segs@.len(),
            views_of(out@) =~= Seq::new(i as nat, |j: int| spec_convert_segment(gsegs[j])),
        decreases segs@.len() - i,
    {
        let seg = segs[i].as_str();
        let n = str_len(seg);
        let piece: String = if n > 0 && char_at(seg, 0) == ':' {
            let mut b = ("{").to_owned();
            b.append(substr(seg, 1, n).as_str());
            b.append("}");
            b
        } else {
            seg.to_owned()
        };
        proof {
            assert(piece@ == spec_convert_segment(gsegs[i as int]));
            assert(views_of(out@.push(piece)) =~= views_of(out@).push(piece@));
            assert(Seq::new((i + 1) as nat, |j: int| spec_convert_segment(gsegs[j])) =~= Seq::new(
                i as nat,
                |j: int| spec_convert_segment(gsegs[j]),
            ).push(spec_convert_segment(gsegs[i as int])));
        }
        out.push(piece);
        i = i + 1;
    }
    proof {
        assert(views_of(out@) =~= Seq::new(gsegs.len(), |j: int| spec_convert_segment(gsegs[j])));
    }
    join_with(&out, "/")
}

/// A documentation-route prefix normalised: empty becomes the default
/// prefix, a missing leading slash is added, trailing slashes go.
pub open spec fn spec_normalize_prefix(p: Seq<char>) -> Seq<char> {
    if p.len() == 0 {
        ("/openapi")@
    } else if p[0] == '/' {
        spec_trim_end_char(p, '/')
    } else {
        ("/")@ + spec_trim_end_char(p, '/')
    }
}

/// A documentation-route prefix normalised.
pub fn normalize_prefix(prefix: &str) -> (r: String)
    ensures
        r@ == spec_normalize_prefix(prefix@),
{
    let n = str_len(prefix);
    if n == 0 {
        return ("/openapi").to_owned();
    }
    if char_at(prefix, 0) == '/' {
        trim_end_char(prefix, '/')
    } else {
        let mut out = ("/").to_owned();
        out.append(trim_end_char(prefix, '/').as_str());
        out
    }
}

/// The handler names that one route registration binds, one per HTTP
/// method, each method bound at most once, the later binding winning.
pub struct MethodHandlers {
    pub entries: Vec<(String, String)>,
}

impl View for MethodHandlers {
    type V = Seq<(Seq<char>, Seq<char>)>;

    open spec fn view(&self) -> Seq<(Seq<char>, Seq<char>)> {
        pair_views(self.entries@)
    }
}

impl MethodHandlers {
    /// No handlers bound yet.
    pub fn new() -> (r: MethodHandlers)
        ensures
            r@ == Seq::<(Seq<char>, Seq<char>)>::empty(),
    {
        let r = MethodHandlers { entries: Vec::new() };
        proof {
            assert(r@ =~= Seq::<(Seq<char>, Seq<char>)>::empty());
        }
        r
    }

    /// The given handler name bound under the given method.
    fn bind(self, method: &str, handler_name: &str) -> (r: MethodHandlers)
        ensures
            r@ == self@.push((method@, handler_name@)),
    {
        let mut entries = self.entries;
        let ghost gself = pair_views(entries@);
        entries.push((method.to_owned(), handler_name.to_owned()));
        proof {
            assert(pair_views(entries@) =~= gself.push((method@, handler_name@)));
        }
        MethodHandlers { entries }
    }

    /// The named handler bound to GET.
    pub fn get(self, handler_name: &str) -> (r: MethodHandlers)
        ensures
            r@ == self@.push((("GET")@, handler_name@)),
    {
        self.bind("GET", handler_name)
    }

    /// The named handler bound to POST.
    pub fn post(self, handler_name: &str) -> (r: MethodHandlers)
        ensures
            r@ == self@.push((("POST")@, handler_name@)),
    {
        self.bind("POST", handler_name)
    }

    /// The named handler bound to PUT.
    pub fn put(self, handler_name: &str) -> (r: MethodHandlers)
        ensures
            r@ == self@.push((("PUT")@, handler_name@)),
    {
        self.bind("PUT", handler_name)
    }

    /// The named handler bound to DELETE.
    pub fn delete(self, handler_name: &str) -> (r: MethodHandlers)
        ensures
            r@ == self@.push((("DELETE")@, handler_name@)),
    {
        self.bind("DELETE", handler_name)
    }

    /// The named handler bound to PATCH.
    pub fn patch(self, handler_name: &str) -> (r: MethodHandlers)
        ensures
            r@ == self@.push((("PATCH")@, handler_name@)),
    {
        self.bind("PATCH", handler_name)
    }
}

/// The route entries that one registration adds to the route table: one
/// per bound method, each summarised as the method and the path.
pub open spec fn spec_route_entries(
    path: Seq<char>,
    bindings: Seq<(Seq<char>, Seq<char>)>,
) -> Seq<RouteInfoView> {
    Seq::new(
        bindings.len(),
        |i: int|
            RouteInfoView {
                path: path,
                method: bindings[i].0,
                function_name: bindings[i].1,
                summary: Some(bindings[i].0 + (" ")@ + path),
                description: None,
            },
    )
}

/// Is a tag of the given name already declared?
fn tag_name_present(tags: &Vec<Tag>, name: &str) -> (r: bool)
{
    let mut j: usize = 0;
    let mut present = false;
    while j < tags.len()
        invariant
            j <= tags@.len(),
        decreases tags@.len() - j,
    {
        if str_eq(tags[j].name.as_str(), name) {
            present = true;
        }
        j = j + 1;
    }
    present
}

/// The assembler: the document metadata and route table built by the
/// caller, the two registries populated before assembly, and the
/// used-schema set of the latest assembly run.
pub struct ApiRouter {
    pub openapi: OpenAPI,
    pub routes: Vec<RouteInfo>,
    pub used_schemas: Vec<String>,
    pub handlers: Vec<HandlerDocumentation>,
    pub schemas: Vec<SchemaRegistration>,
}

impl ApiRouter {
    /// A fresh assembler with the given title and version, no routes and
    /// empty registries.
    pub fn new(title: &str, version: &str) -> (r: ApiRouter)
        ensures
            r.openapi.info@.title == title@,
            r.openapi.info@.version == version@,
            r.openapi.info@.description is None,
            r.openapi.info@.terms_of_service is None,
            r.openapi.info@.contact is None,
            r.openapi.info@.license is None,
            r.openapi.paths@.len() == 0,
            r.openapi.components is None,
            r.openapi.tags@.len() == 0,
            r.routes@.len() == 0,
            r.used_schemas@.len() == 0,
            r.handlers@.len() == 0,
            r.schemas@.len() == 0,
    {
        ApiRouter {
            openapi: OpenAPI::new(title, version),
            routes: Vec::new(),
            used_schemas: Vec::new(),
            handlers: Vec::new(),
            schemas: Vec::new(),
        }
    }

    /// The root document as built so far.
    pub fn openapi_spec(&self) -> (r: &OpenAPI)
        ensures
            r == &self.openapi,
    {
        &self.openapi
    }

    /// Appends one handler record to the handler registry.
    pub fn register_handler(&mut self, doc: HandlerDocumentation)
        ensures
            final(self).handlers@ == old(self).handlers@.push(doc),
            final(self).routes@ == old(self).routes@,
            final(self).schemas@ == old(self).schemas@,
            final(self).used_schemas@ == old(self).used_schemas@,
            final(self).openapi == old(self).openapi,
    {
        self.handlers.push(doc);
    }

    /// Appends one schema record to the schema registry.
    pub fn register_schema(&mut self, reg: SchemaRegistration)
        ensures
            final(self).schemas@ == old(self).schemas@.push(reg),
            final(self).routes@ == old(self).routes@,
            final(self).handlers@ == old(self).handlers@,
            final(self).used_schemas@ == old(self).used_schemas@,
            final(self).openapi == old(self).openapi,
    {
        self.schemas.push(reg);
    }

    /// Sets the API description.
    pub fn description(self, description: &str) -> (r: ApiRouter)
        ensures
            r.openapi.info@.description == Some(description@),
            r.openapi.info@.title == self.openapi.info@.title,
            r.openapi.info@.version == self.openapi.info@.version,
            r.openapi.info@.terms_of_service == self.openapi.info@.terms_of_service,
            r.openapi.info@.contact == self.openapi.info@.contact,
            r.openapi.info@.license == self.openapi.info@.license,
            r.openapi.paths == self.openapi.paths,
            r.openapi.tags == self.openapi.tags,
            r.routes == self.routes,
            r.used_schemas == self.used_schemas,
            r.handlers == self.handlers,
            r.schemas == self.schemas,
    {
        let mut s = self;
        s.openapi.info.description = Some(description.to_owned());
        s
    }

    /// Sets the terms-of-service link.
    pub fn terms_of_service(self, terms_of_service: &str) -> (r: ApiRouter)
        ensures
            r.openapi.info@.terms_of_service == Some(terms_of_service@),
            r.openapi.info@.title == self.openapi.info@.title,
            r.openapi.info@.version == self.openapi.info@.version,
            r.openapi.info@.description == self.openapi.info@.description,
            r.openapi.info@.contact == self.openapi.info@.contact,
            r.openapi.info@.license == self.openapi.info@.license,
            r.openapi.paths == self.openapi.paths,
            r.openapi.tags == self.openapi.tags,
            r.routes == self.routes,
            r.used_schemas == self.used_schemas,
            r.handlers == self.handlers,
            r.schemas == self.schemas,
    {
        let mut s = self;
        s.openapi.info.terms_of_service = Some(terms_of_service.to_owned());
        s
    }

    /// Sets the contact information.
    pub fn contact(self, name: Option<&str>, url: Option<&str>, email: Option<&str>) -> (r:
        ApiRouter)
        ensures
            r.openapi.info@.contact == Some(
                ContactView {
                    name: match name {
                        Some(n) => Some(n@),
                        None => None,
                    },
                    url: match url {
                        Some(u) => Some(u@),
                        None => None,
                    },
                    email: match email {
                        Some(e) => Some(e@),
                        None => None,
                    },
                },
            ),
            r.openapi.info@.title == self.openapi.info@.title,
            r.openapi.info@.version == self.openapi.info@.version,
            r.openapi.info@.description == self.openapi.info@.description,
            r.openapi.info@.terms_of_service == self.openapi.info@.terms_of_service,
            r.openapi.info@.license == self.openapi.info@.license,
            r.openapi.paths == self.openapi.paths,
            r.openapi.tags == self.openapi.tags,
            r.routes == self.routes,
            r.used_schemas == self.used_schemas,
            r.handlers == self.handlers,
            r.schemas == self.schemas,
    {
        let mut s = self;
        s.openapi.info.contact = Some(
            Contact {
                name: match name {
                    Some(n) => Some(n.to_owned()),
                    None => None,
                },
                url: match url {
                    Some(u) => Some(u.to_owned()),
                    None => None,
                },
                email: match email {
                    Some(e) => Some(e.to_owned()),
                    None => None,
                },
            },
        );
        s
    }

    /// Sets contact information holding only an email address.
    pub fn contact_email(self, email: &str) -> (r: ApiRouter)
        ensures
            r.openapi.info@.contact == Some(
                ContactView { name: None, url: None, email: Some(email@) },
            ),
            r.openapi.info@.title == self.openapi.info@.title,
            r.openapi.info@.version == self.openapi.info@.version,
            r.openapi.info@.description == self.openapi.info@.description,
            r.openapi.info@.terms_of_service == self.openapi.info@.terms_of_service,
            r.openapi.info@.license == self.openapi.info@.license,
            r.openapi.paths == self.openapi.paths,
            r.openapi.tags == self.openapi.tags,
            r.routes == self.routes,
            r.used_schemas == self.used_schemas,
            r.handlers == self.handlers,
            r.schemas == self.schemas,
    {
        let mut s = self;
        s.openapi.info.contact = Some(Contact { name: None, url: None, email: Some(email.to_owned()) });
        s
    }

    /// Sets the license information.
    pub fn license(self, name: &str, url: Option<&str>) -> (r: ApiRouter)
        ensures
            r.openapi.info@.license == Some(
                LicenseView {
                    name: name@,
                    url: match url {
                        Some(u) => Some(u@),
                        None => None,
                    },
                },
            ),
            r.openapi.info@.title == self.openapi.info@.title,
            r.openapi.info@.version == self.openapi.info@.version,
            r.openapi.info@.description == self.openapi.info@.description,
            r.openapi.info@.terms_of_service == self.openapi.info@.terms_of_service,
            r.openapi.info@.contact == self.openapi.info@.contact,
            r.openapi.paths == self.openapi.paths,
            r.openapi.tags == self.openapi.tags,
            r.routes == self.routes,
            r.used_schemas == self.used_schemas,
            r.handlers == self.handlers,
            r.schemas == self.schemas,
    {
        let mut s = self;
        s.openapi.info.license = Some(
            License {
                name: name.to_owned(),
                url: match url {
                    Some(u) => Some(u.to_owned()),
                    None => None,
                },
            },
        );
        s
    }

    /// Adds one tag declaration.
    pub fn tag(self, name: &str, description: Option<&str>) -> (r: ApiRouter)
        ensures
            tag_views(r.openapi.tags@) == tag_views(self.openapi.tags@).push(
                TagView {
                    name: name@,
                    description: match description {
                        Some(d) => Some(d@),
                        None => None,
                    },
                    external_docs: None,
                },
            ),
            r.openapi.info == self.openapi.info,
            r.openapi.paths == self.openapi.paths,
            r.routes == self.routes,
            r.used_schemas == self.used_schemas,
            r.handlers == self.handlers,
            r.schemas == self.schemas,
    {
        let mut s = self;
        let ghost gtags = tag_views(s.openapi.tags@);
        let t = Tag {
            name: name.to_owned(),
            description: match description {
                Some(d) => Some(d.to_owned()),
                None => None,
            },
            external_docs: None,
        };
        let ghost gt = t@;
        s.openapi.tags.push(t);
        proof {
            assert(tag_views(s.openapi.tags@) =~= gtags.push(gt));
        }
        s
    }

    /// Adds one tag declaration with an external documentation link.
    pub fn tag_with_docs(
        self,
        name: &str,
        description: Option<&str>,
        docs_description: Option<&str>,
        docs_url: &str,
    ) -> (r: ApiRouter)
        ensures
            tag_views(r.openapi.tags@) == tag_views(self.openapi.tags@).push(
                TagView {
                    name: name@,
                    description: match description {
                        Some(d) => Some(d@),
                        None => None,
                    },
                    external_docs: Some(
                        ExternalDocsView {
                            url: docs_url@,
                            description: match docs_description {
                                Some(d) => Some(d@),
                                None => None,
                            },
                        },
                    ),
                },
            ),
            r.openapi.info == self.openapi.info,
            r.openapi.paths == self.openapi.paths,
            r.routes == self.routes,
            r.used_schemas == self.used_schemas,
            r.handlers == self.handlers,
            r.schemas == self.schemas,
    {
        let mut s = self;
        let ghost gtags = tag_views(s.openapi.tags@);
        let t = Tag {
            name: name.to_owned(),
            description: match description {
                Some(d) => Some(d.to_owned()),
                None => None,
            },
            external_docs: Some(
                ExternalDocs {
                    url: docs_url.to_owned(),
                    description: match docs_description {
                        Some(d) => Some(d.to_owned()),
                        None => None,
                    },
                },
            ),
        };
        let ghost gt = t@;
        s.openapi.tags.push(t);
        proof {
            assert(tag_views(s.openapi.tags@) =~= gtags.push(gt));
        }
        s
    }

    /// Attaches the given method handlers under the given path: one route
    /// entry per bound method joins the table, and the path joins the
    /// root document's path set.
    pub fn route(self, path: &str, method_handlers: MethodHandlers) -> (r: ApiRouter)
        ensures
            route_views(r.routes@) == route_views(self.routes@) + spec_route_entries(
                path@,
                method_handlers@,
            ),
            views_of(r.openapi.paths@) == if views_of(self.openapi.paths@).contains(path@) {
                views_of(self.openapi.paths@)
            } else {
                views_of(self.openapi.paths@).push(path@)
            },
            r.openapi.info == self.openapi.info,
            r.openapi.tags == self.openapi.tags,
            r.used_schemas == self.used_schemas,
            r.handlers == self.handlers,
            r.schemas == self.schemas,
    {
        let mut s = self;
        let ghost groutes = route_views(s.routes@);
        let ghost gbind = method_handlers@;
        let ghost g0 = s;
        let mut i: usize = 0;
        while i < method_handlers.entries.len()
            invariant
                gbind == pair_views(method_handlers.entries@),
                i <= method_handlers.entries@.len(),
                route_views(s.routes@) =~= groutes + spec_route_entries(path@, gbind).subrange(
                    0,
                    i as int,
                ),
                s.openapi == g0.openapi,
                s.used_schemas == g0.used_schemas,
                s.handlers == g0.handlers,
                s.schemas == g0.schemas,
            decreases method_handlers.entries@.len() - i,
        {
            let method = method_handlers.entries[i].0.as_str();
            let fname = method_handlers.entries[i].1.as_str();
            let mut summary = method.to_owned();
            summary.append(" ");
            summary.append(path);
            let entry = RouteInfo {
                path: path.to_owned(),
                method: method.to_owned(),
                function_name: fname.to_owned(),
                summary: Some(summary),
                description: None,
            };
            proof {
                assert(entry@ == spec_route_entries(path@, gbind)[i as int]);
                assert(route_views(s.routes@.push(entry)) =~= route_views(s.routes@).push(entry@));
                assert((groutes + spec_route_entries(path@, gbind).subrange(0, i as int)).push(
                    entry@,
                ) =~= groutes + spec_route_entries(path@, gbind).subrange(0, i + 1));
            }
            s.routes.push(entry);
            i = i + 1;
        }
        proof {
            assert(spec_route_entries(path@, gbind).subrange(
                0,
                gbind.len() as int,
            ) =~= spec_route_entries(path@, gbind));
        }
        if !vec_has_str(&s.openapi.paths, path) {
            let ghost gpaths = views_of(s.openapi.paths@);
            s.openapi.paths.push(path.to_owned());
            proof {
                assert(views_of(s.openapi.paths@) =~= gpaths.push(path@));
            }
        }
        s
    }

    /// Merges another assembler into this one: routes, used schemas,
    /// registries and paths are appended, tags joined without repeating a
    /// name already present.
    pub fn merge(self, other: ApiRouter) -> (r: ApiRouter)
        ensures
            r.routes@ == self.routes@ + other.routes@,
            r.handlers@ == self.handlers@ + other.handlers@,
            r.schemas@ == self.schemas@ + other.schemas@,
            r.openapi.info == self.openapi.info,
            views_of(r.used_schemas@) == views_of(self.used_schemas@) + views_of(
                other.used_schemas@,
            ),
            views_of(r.openapi.paths@) == views_of(self.openapi.paths@) + views_of(
                other.openapi.paths@,
            ),
            tag_views(r.openapi.tags@).len() >= tag_views(self.openapi.tags@).len(),
            forall|t: int|
                0 <= t < self.openapi.tags@.len() ==> tag_views(r.openapi.tags@)[t] == tag_views(
                    self.openapi.tags@,
                )[t],
    {
        let mut s = self;
        let ApiRouter { openapi: o_api, routes: o_routes, used_schemas: o_used, handlers: o_handlers, schemas: o_schemas } = other;
        let mut o_routes = o_routes;
        let mut o_handlers = o_handlers;
        let mut o_schemas = o_schemas;
        let mut o_used = o_used;
        let mut o_paths = o_api.paths;
        s.routes.append(&mut o_routes);
        s.handlers.append(&mut o_handlers);
        s.schemas.append(&mut o_schemas);
        let ghost gused = views_of(s.used_schemas@);
        let ghost gopaths = views_of(o_paths@);
        let ghost goused = views_of(o_used@);
        s.used_schemas.append(&mut o_used);
        proof {
            assert(views_of(s.used_schemas@) =~= gused + goused);
        }
        let ghost gpaths = views_of(s.openapi.paths@);
        s.openapi.paths.append(&mut o_paths);
        proof {
            assert(views_of(s.openapi.paths@) =~= gpaths + gopaths);
        }
        let tags = o_api.tags;
        let mut i: usize = 0;
        let ghost gtags0 = tag_views(s.openapi.tags@);
        let ghost gframe = s;
        while i < tags.len()
            invariant
                i <= tags@.len(),
                tag_views(s.openapi.tags@).len() >= gtags0.len(),
                forall|t: int|
                    0 <= t < gtags0.len() ==> tag_views(s.openapi.tags@)[t] == gtags0[t],
                s.routes == gframe.routes,
                s.handlers == gframe.handlers,
                s.schemas == gframe.schemas,
                s.used_schemas == gframe.used_schemas,
                s.openapi.info == gframe.openapi.info,
                s.openapi.paths == gframe.openapi.paths,
                s.openapi.components == gframe.openapi.components,
            decreases tags@.len() - i,
        {
            let present = tag_name_present(&s.openapi.tags, tags[i].name.as_str());
            if !present {
                let ghost gts = tag_views(s.openapi.tags@);
                let t = Tag {
                    name: tags[i].name.clone(),
                    description: match &tags[i].description {
                        Some(d) => Some(d.clone()),
                        None => None,
                    },
                    external_docs: match &tags[i].external_docs {
                        Some(d) => Some(
                            ExternalDocs { url: d.url.clone(), description: match &d.description {
                                Some(x) => Some(x.clone()),
                                None => None,
                            } },
                        ),
                        None => None,
                    },
                };
                s.openapi.tags.push(t);
                proof {
                    assert(forall|t2: int|
                        0 <= t2 < gts.len() ==> tag_views(s.openapi.tags@)[t2] == gts[t2]);
                }
            }
            i = i + 1;
        }
        s
    }
}


/// The first handler record registered under the given function name.
pub open spec fn spec_first_doc(
    hs: Seq<HandlerDocumentationView>,
    f: Seq<char>,
    i: int,
) -> Option<HandlerDocumentationView>
    decreases hs.len() - i,
{
    if i < 0 || i >= hs.len() {
        None
    } else if hs[i].function_name == f {
        Some(hs[i])
    } else {
        spec_first_doc(hs, f, i + 1)
    }
}

/// The first handler record registered under the given function name.
pub fn find_doc<'a>(handlers: &'a Vec<HandlerDocumentation>, f: &str) -> (r: Option<
    &'a HandlerDocumentation,
>)
    ensures
        (match r {
            Some(d) => Some(d@),
            None => None,
        }) == spec_first_doc(handler_views(handlers@), f@, 0),
{
    let ghost ghs = handler_views(handlers@);
    let mut i: usize = 0;
    while i < handlers.len()
        invariant
            ghs == handler_views(handlers@),
            i <= handlers@.len(),
            spec_first_doc(ghs, f@, 0) == spec_first_doc(ghs, f@, i as int),
        decreases handlers@.len() - i,
    {
        if str_eq(handlers[i].function_name.as_str(), f) {
            assert(ghs[i as int] == handlers@[i as int]@);
            return Some(&handlers[i]);
        }
        assert(ghs[i as int] == handlers@[i as int]@);
        i = i + 1;
    }
    None
}

/// The legacy reading of a raw parameters field: brackets trimmed, split
/// on the quoted comma-space delimiter, each piece stripped of quotes and
/// read as a fallback parameter.
pub open spec fn spec_legacy_param_pieces(raw: Seq<char>) -> Seq<Seq<char>> {
    let inner = crate::strings::spec_trim_end_char(
        crate::strings::spec_trim_start_char(raw, '['),
        ']',
    );
    let pieces = crate::strings::spec_split_str(inner, ("\", \"")@);
    Seq::new(pieces.len(), |i: int| crate::strings::spec_trim_char(pieces[i], '"'))
}

/// The parameters and the authentication flag of a raw parameters field:
/// empty fields give neither; the strict decoding parses each item by the
/// grammar with the sentinel filtered out; the legacy reading yields one
/// fallback parameter per piece.
pub open spec fn spec_params_of_raw(raw: Seq<char>) -> (Seq<ParameterView>, bool) {
    if raw == ("[]")@ || raw.len() == 0 {
        (Seq::empty(), false)
    } else {
        match json_string_array(raw) {
            Some(items) => (spec_params_of_items(items), spec_has_auth_item(items)),
            None => {
                let pieces = spec_legacy_param_pieces(raw);
                (
                    Seq::new(pieces.len(), |i: int| crate::parse::spec_fallback_param(pieces[i])),
                    spec_has_auth_item(pieces),
                )
            },
        }
    }
}

/// The parameters and the authentication flag of a raw parameters field.
pub fn parse_parameters_raw(raw: &str) -> (r: (Vec<openapi::Parameter>, bool))
    ensures
        Seq::new(r.0@.len(), |j: int| r.0@[j]@) == spec_params_of_raw(raw@).0,
        r.1 == spec_params_of_raw(raw@).1,
{
    if str_eq(raw, "[]") || str_len(raw) == 0 {
        let out: Vec<openapi::Parameter> = Vec::new();
        proof {
            assert(Seq::new(out@.len(), |j: int| out@[j]@) =~= Seq::<ParameterView>::empty());
        }
        return (out, false);
    }
    match decode_string_array(raw) {
        Some(items) => {
            proof {
                assert(views_of(items@) =~= json_string_array(raw@).unwrap());
            }
            parse_parameter_items(&items)
        },
        None => {
            proof {
                reveal_strlit("\", \"");
            }
            let inner = trim_end_char(
                crate::strings::trim_start_char(raw, '[').as_str(),
                ']',
            );
            let pieces = crate::strings::split_str(inner.as_str(), "\", \"");
            let ghost gpieces = spec_legacy_param_pieces(raw@);
            let mut cleaned: Vec<String> = Vec::new();
            let mut i: usize = 0;
            while i < pieces.len()
                invariant
                    views_of(pieces@).len() == gpieces.len(),
                    forall|t: int|
                        0 <= t < gpieces.len() ==> gpieces[t] == crate::strings::spec_trim_char(
                            #[trigger] views_of(pieces@)[t],
                            '"',
                        ),
                    i <= pieces@.len(),
                    views_of(cleaned@) =~= gpieces.subrange(0, i as int),
                decreases pieces@.len() - i,
            {
                let piece = crate::strings::trim_char(pieces[i].as_str(), '"');
                proof {
                    assert(views_of(pieces@)[i as int] == pieces@[i as int]@);
                    assert(piece@ == gpieces[i as int]);
                    assert(views_of(cleaned@.push(piece)) =~= views_of(cleaned@).push(piece@));
                    assert(gpieces.subrange(0, i + 1) =~= gpieces.subrange(0, i as int).push(
                        gpieces[i as int],
                    ));
                }
                cleaned.push(piece);
                i = i + 1;
            }
            proof {
                assert(views_of(cleaned@) =~= gpieces);
            }
            let mut out: Vec<openapi::Parameter> = Vec::new();
            let mut auth = false;
            let mut j: usize = 0;
            while j < cleaned.len()
                invariant
                    views_of(cleaned@) == gpieces,
                    j <= cleaned@.len(),
                    Seq::new(out@.len(), |t: int| out@[t]@) =~= Seq::new(
                        j as nat,
                        |t: int| crate::parse::spec_fallback_param(gpieces[t]),
                    ),
                    auth == exists|k: int|
                        0 <= k < j && gpieces[k] == crate::parse::spec_auth_sentinel(),
                decreases cleaned@.len() - j,
            {
                if str_eq(cleaned[j].as_str(), "__REQUIRES_AUTH__") {
                    assert(gpieces[j as int] == crate::parse::spec_auth_sentinel());
                    auth = true;
                } else {
                    assert(gpieces[j as int] != crate::parse::spec_auth_sentinel());
                }
                let p = crate::parse::fallback_parameter(cleaned[j].as_str());
                proof {
                    assert(Seq::new(out@.push(p).len(), |t: int| out@.push(p)[t]@) =~= Seq::new(
                        out@.len(),
                        |t: int| out@[t]@,
                    ).push(p@));
                    assert(Seq::new((j + 1) as nat, |t: int| crate::parse::spec_fallback_param(
                        gpieces[t],
                    )) =~= Seq::new(j as nat, |t: int| crate::parse::spec_fallback_param(
                        gpieces[t],
                    )).push(crate::parse::spec_fallback_param(gpieces[j as int])));
                }
                out.push(p);
                j = j + 1;
            }
            (out, auth)
        },
    }
}

/// The fixed security requirement attached to an operation that needs
/// authentication.
pub open spec fn spec_session_requirement() -> SecurityRequirementView {
    SecurityRequirementView { scheme: ("sessionAuth")@, scopes: Seq::empty() }
}

/// Is a response with the given status code declared?
pub open spec fn spec_has_code(rs: Seq<(Seq<char>, ResponseView)>, code: Seq<char>) -> bool {
    exists|i: int| 0 <= i < rs.len() && (#[trigger] rs[i]).0 == code
}

/// The response appended when an operation requires authentication but
/// declares no unauthorised response.
pub open spec fn spec_401_response() -> (Seq<char>, ResponseView) {
    (("401")@, ResponseView { description: ("Unauthorized")@, content: None })
}

/// The operation assembled for one route: summaries fall back when the
/// handler has no record; the four raw fields parse by the grammar; an
/// authentication sentinel strips to a security requirement and, when no
/// unauthorised response is declared, appends one; an operation without
/// responses receives the default success response.
pub open spec fn spec_operation_for(
    route: RouteInfoView,
    doc: Option<HandlerDocumentationView>,
    reg: Seq<(Seq<char>, Seq<char>)>,
) -> OperationView {
    match doc {
        None => OperationView {
            summary: Some(
                match route.summary {
                    Some(s) => s,
                    None => route.method + (" ")@ + route.path,
                },
            ),
            description: Some(("No description available")@),
            handler_function: Some(route.function_name),
            tags: Seq::empty(),
            parameters: Seq::empty(),
            request_body: None,
            responses: seq![spec_default_200()],
            security: None,
        },
        Some(d) => {
            let (params, auth) = spec_params_of_raw(d.parameters);
            let (responses0, _used) = spec_responses_of_raw(d.responses, reg);
            let responses = if auth && !spec_has_code(responses0, ("401")@) {
                responses0.push(spec_401_response())
            } else {
                responses0
            };
            OperationView {
                summary: Some(d.summary),
                description: Some(d.description),
                handler_function: Some(route.function_name),
                tags: spec_parse_tags(d.tags),
                parameters: params,
                request_body: if d.request_body == ("[]")@ || d.request_body.len() == 0 {
                    None
                } else {
                    Some(spec_request_body(d.request_body, reg).0)
                },
                responses: responses,
                security: if auth {
                    Some(seq![spec_session_requirement()])
                } else {
                    None
                },
            }
        },
    }
}

/// The registered schema names one route's handler record uses, through
/// its request body and its responses.
pub open spec fn spec_route_used(
    route: RouteInfoView,
    hs: Seq<HandlerDocumentationView>,
    reg: Seq<(Seq<char>, Seq<char>)>,
) -> Seq<Seq<char>> {
    match spec_first_doc(hs, route.function_name, 0) {
        None => Seq::empty(),
        Some(d) => (match spec_request_body(d.request_body, reg).1 {
            Some(n) => seq![n],
            None => Seq::<Seq<char>>::empty(),
        }) + spec_responses_of_raw(d.responses, reg).1,
    }
}

/// The operation assembled for one route.
#[verifier::rlimit(100)]
pub fn build_method(
    route: &RouteInfo,
    doc: Option<&HandlerDocumentation>,
    registry: &Vec<SchemaRegistration>,
) -> (r: openapi::Operation)
    ensures
        r@ == spec_operation_for(
            route@,
            match doc {
                Some(d) => Some(d@),
                None => None,
            },
            reg_views(registry@),
        ),
{
    match doc {
        None => {
            let summary: String = match &route.summary {
                Some(s) => s.clone(),
                None => {
                    let mut b = route.method.clone();
                    b.append(" ");
                    b.append(route.path.as_str());
                    b
                },
            };
            let mut responses: Vec<(String, openapi::Response)> = Vec::new();
            responses.push(
                (
                    ("200").to_owned(),
                    openapi::Response {
                        description: ("Successful response").to_owned(),
                        content: None,
                    },
                ),
            );
            let r = openapi::Operation {
                summary: Some(summary),
                description: Some(("No description available").to_owned()),
                handler_function: Some(route.function_name.clone()),
                tags: Vec::new(),
                parameters: Vec::new(),
                request_body: None,
                responses,
                security: None,
            };
            proof {
                assert(pair_views(r.responses@) =~= seq![spec_default_200()]);
                assert(Seq::new(r.tags@.len(), |i: int| r.tags@[i]@) =~= Seq::<Seq<char>>::empty());
                assert(Seq::new(r.parameters@.len(), |i: int| r.parameters@[i]@)
                    =~= Seq::<ParameterView>::empty());
            }
            r
        },
        Some(d) => {
            let tags = parse_tags_raw(d.tags.as_str());
            let (parameters, auth) = parse_parameters_raw(d.parameters.as_str());
            let request_body: Option<openapi::RequestBody> = if str_eq(
                d.request_body.as_str(),
                "[]",
            ) || str_len(d.request_body.as_str()) == 0 {
                None
            } else {
                let (body, _used) = parse_request_body_raw(d.request_body.as_str(), registry);
                Some(body)
            };
            let (responses0, _used) = parse_responses_raw(d.responses.as_str(), registry);
            let mut responses = responses0;
            if auth && !has_code(&responses, "401") {
                let ghost gr = pair_views(responses@);
                responses.push(
                    (
                        ("401").to_owned(),
                        openapi::Response {
                            description: ("Unauthorized").to_owned(),
                            content: None,
                        },
                    ),
                );
                proof {
                    assert(pair_views(responses@) =~= gr.push(spec_401_response()));
                }
            }
            let security: Option<Vec<SecurityRequirement>> = if auth {
                let mut reqs: Vec<SecurityRequirement> = Vec::new();
                reqs.push(
                    SecurityRequirement { scheme: ("sessionAuth").to_owned(), scopes: Vec::new() },
                );
                proof {
                    assert(reqs@[0]@.scopes =~= Seq::<Seq<char>>::empty());
                    assert(reqs@[0]@ == spec_session_requirement());
                    assert(Seq::new(reqs@.len(), |i: int| reqs@[i]@) =~= seq![
                        spec_session_requirement(),
                    ]);
                }
                Some(reqs)
            } else {
                None
            };
            let r = openapi::Operation {
                summary: Some(d.summary.clone()),
                description: Some(d.description.clone()),
                handler_function: Some(route.function_name.clone()),
                tags,
                parameters,
                request_body,
                responses,
                security,
            };
            r
        },
    }
}

/// Is a response with the given status code declared?
fn has_code(rs: &Vec<(String, openapi::Response)>, code: &str) -> (r: bool)
    ensures
        r == spec_has_code(pair_views(rs@), code@),
{
    let ghost grs = pair_views(rs@);
    let mut i: usize = 0;
    while i < rs.len()
        invariant
            grs == pair_views(rs@),
            i <= rs@.len(),
            forall|j: int| 0 <= j < i ==> (#[trigger] grs[j]).0 != code@,
        decreases rs@.len() - i,
    {
        if str_eq(rs[i].0.as_str(), code) {
            assert((grs[i as int]).0 == code@);
            return true;
        }
        assert((grs[i as int]).0 == rs@[i as int].0@);
        i = i + 1;
    }
    false
}

/// Was the path of the route at `upto` already seen earlier in the table?
pub open spec fn spec_path_seen(routes: Seq<RouteInfoView>, p: Seq<char>, upto: int) -> bool {
    exists|j: int| 0 <= j < upto && (#[trigger] routes[j]).path == p
}

/// The distinct route paths, in order of first appearance.
pub open spec fn spec_group_keys(routes: Seq<RouteInfoView>, i: int) -> Seq<Seq<char>>
    decreases routes.len() - i,
{
    if i < 0 || i >= routes.len() {
        Seq::empty()
    } else if spec_path_seen(routes, routes[i].path, i) {
        spec_group_keys(routes, i + 1)
    } else {
        seq![routes[i].path] + spec_group_keys(routes, i + 1)
    }
}

/// The routes of the table that carry the given path, in table order.
pub open spec fn spec_routes_with_path(
    routes: Seq<RouteInfoView>,
    p: Seq<char>,
    i: int,
) -> Seq<RouteInfoView>
    decreases routes.len() - i,
{
    if i < 0 || i >= routes.len() {
        Seq::empty()
    } else {
        (if routes[i].path == p {
            seq![routes[i]]
        } else {
            Seq::<RouteInfoView>::empty()
        }) + spec_routes_with_path(routes, p, i + 1)
    }
}

/// The operation written into its method slot; an unrecognised method
/// leaves the item unchanged. Methods compare without regard to ASCII
/// letter case.
pub open spec fn spec_method_slot(
    pi: PathItemView,
    method: Seq<char>,
    op: OperationView,
) -> PathItemView {
    if spec_ieq(method, ("GET")@) {
        PathItemView { get: Some(op), ..pi }
    } else if spec_ieq(method, ("POST")@) {
        PathItemView { post: Some(op), ..pi }
    } else if spec_ieq(method, ("PUT")@) {
        PathItemView { put: Some(op), ..pi }
    } else if spec_ieq(method, ("DELETE")@) {
        PathItemView { delete: Some(op), ..pi }
    } else if spec_ieq(method, ("PATCH")@) {
        PathItemView { patch: Some(op), ..pi }
    } else if spec_ieq(method, ("HEAD")@) {
        PathItemView { head: Some(op), ..pi }
    } else if spec_ieq(method, ("OPTIONS")@) {
        PathItemView { options: Some(op), ..pi }
    } else {
        pi
    }
}

/// The empty path item.
pub open spec fn spec_empty_path_item() -> PathItemView {
    PathItemView {
        get: None,
        post: None,
        put: None,
        delete: None,
        patch: None,
        head: None,
        options: None,
    }
}

/// The path item assembled from the routes of one path: each route's
/// operation written into its method slot, later routes winning a slot.
pub open spec fn spec_path_item_for(
    group: Seq<RouteInfoView>,
    hs: Seq<HandlerDocumentationView>,
    reg: Seq<(Seq<char>, Seq<char>)>,
    i: int,
    acc: PathItemView,
) -> PathItemView
    decreases group.len() - i,
{
    if i < 0 || i >= group.len() {
        acc
    } else {
        let op = spec_operation_for(
            group[i],
            spec_first_doc(hs, group[i].function_name, 0),
            reg,
        );
        spec_path_item_for(group, hs, reg, i + 1, spec_method_slot(acc, group[i].method, op))
    }
}

/// The path item assembled from the routes of one path.
pub fn build_path(
    group: &Vec<RouteInfo>,
    handlers: &Vec<HandlerDocumentation>,
    registry: &Vec<SchemaRegistration>,
) -> (r: openapi::PathItem)
    ensures
        r@ == spec_path_item_for(
            route_views(group@),
            handler_views(handlers@),
            reg_views(registry@),
            0,
            spec_empty_path_item(),
        ),
{
    let ghost ggroup = route_views(group@);
    let ghost ghs = handler_views(handlers@);
    let ghost greg = reg_views(registry@);
    let mut item = openapi::PathItem::empty();
    let mut i: usize = 0;
    while i < group.len()
        invariant
            ggroup == route_views(group@),
            ghs == handler_views(handlers@),
            greg == reg_views(registry@),
            i <= group@.len(),
            spec_path_item_for(ggroup, ghs, greg, 0, spec_empty_path_item())
                == spec_path_item_for(ggroup, ghs, greg, i as int, item@),
        decreases group@.len() - i,
    {
        let route = &group[i];
        assert(route@ == ggroup[i as int]);
        let doc = find_doc(handlers, route.function_name.as_str());
        let op = build_method(route, doc, registry);
        let m = route.method.as_str();
        if eq_ignore_case(m, "GET") {
            item.get = Some(op);
        } else if eq_ignore_case(m, "POST") {
            item.post = Some(op);
        } else if eq_ignore_case(m, "PUT") {
            item.put = Some(op);
        } else if eq_ignore_case(m, "DELETE") {
            item.delete = Some(op);
        } else if eq_ignore_case(m, "PATCH") {
            item.patch = Some(op);
        } else if eq_ignore_case(m, "HEAD") {
            item.head = Some(op);
        } else if eq_ignore_case(m, "OPTIONS") {
            item.options = Some(op);
        }
        i = i + 1;
    }
    item
}


/// The distinct paths of the first `upto` routes, in order of first
/// appearance.
pub open spec fn spec_group_keys_upto(routes: Seq<RouteInfoView>, upto: int) -> Seq<Seq<char>>
    decreases upto,
{
    if upto <= 0 || upto > routes.len() {
        Seq::empty()
    } else if spec_path_seen(routes, routes[upto - 1].path, upto - 1) {
        spec_group_keys_upto(routes, upto - 1)
    } else {
        spec_group_keys_upto(routes, upto - 1).push(routes[upto - 1].path)
    }
}

/// The routes among the first `upto` that carry the given path, in table
/// order.
pub open spec fn spec_routes_with_path_upto(
    routes: Seq<RouteInfoView>,
    p: Seq<char>,
    upto: int,
) -> Seq<RouteInfoView>
    decreases upto,
{
    if upto <= 0 || upto > routes.len() {
        Seq::empty()
    } else if routes[upto - 1].path == p {
        spec_routes_with_path_upto(routes, p, upto - 1).push(routes[upto - 1])
    } else {
        spec_routes_with_path_upto(routes, p, upto - 1)
    }
}

/// A key of the grouped table appears exactly when some earlier route
/// carries it.
proof fn lemma_group_keys_seen(routes: Seq<RouteInfoView>, p: Seq<char>, upto: int)
    requires
        0 <= upto <= routes.len(),
    ensures
        spec_group_keys_upto(routes, upto).contains(p) <==> spec_path_seen(routes, p, upto),
    decreases upto,
{
    if upto > 0 {
        lemma_group_keys_seen(routes, p, upto - 1);
        let ks = spec_group_keys_upto(routes, upto - 1);
        if spec_path_seen(routes, routes[upto - 1].path, upto - 1) {
            if spec_path_seen(routes, p, upto) && !spec_path_seen(routes, p, upto - 1) {
                assert(routes[upto - 1].path == p);
            }
        } else {
            let kp = ks.push(routes[upto - 1].path);
            assert forall|q: Seq<char>| kp.contains(q) implies (ks.contains(q) || q == routes[upto
                - 1].path) by {
                let t = choose|t: int| 0 <= t < kp.len() && #[trigger] kp[t] == q;
                if t < ks.len() {
                    assert(ks[t] == q);
                }
            }
            assert(kp.contains(routes[upto - 1].path)) by {
                assert(kp[ks.len() as int] == routes[upto - 1].path);
            }
            if ks.contains(p) {
                assert(kp.contains(p)) by {
                    let t = choose|t: int| 0 <= t < ks.len() && #[trigger] ks[t] == p;
                    assert(kp[t] == p);
                }
            }
        }
    }
}

/// The grouped keys repeat no path.
proof fn lemma_group_keys_distinct(routes: Seq<RouteInfoView>, upto: int)
    requires
        0 <= upto <= routes.len(),
    ensures
        spec_group_keys_upto(routes, upto).no_duplicates(),
    decreases upto,
{
    if upto > 0 {
        lemma_group_keys_distinct(routes, upto - 1);
        let ks = spec_group_keys_upto(routes, upto - 1);
        if !spec_path_seen(routes, routes[upto - 1].path, upto - 1) {
            lemma_group_keys_seen(routes, routes[upto - 1].path, upto - 1);
            let kp = ks.push(routes[upto - 1].path);
            assert(kp.no_duplicates()) by {
                assert(forall|a: int, b: int| 0 <= a < b < kp.len() ==> kp[a] != kp[b]) by {
                    assert(forall|a: int| 0 <= a < ks.len() ==> ks[a] == #[trigger] kp[a]);
                    assert(kp[ks.len() as int] == routes[upto - 1].path);
                    assert(!ks.contains(routes[upto - 1].path));
                }
            }
        }
    }
}

/// A path never seen among the first `upto` routes groups nothing there.
proof fn lemma_unseen_path_empty(routes: Seq<RouteInfoView>, p: Seq<char>, upto: int)
    requires
        0 <= upto <= routes.len(),
        !spec_path_seen(routes, p, upto),
    ensures
        spec_routes_with_path_upto(routes, p, upto) == Seq::<RouteInfoView>::empty(),
    decreases upto,
{
    if upto > 0 {
        assert(routes[upto - 1].path != p);
        lemma_unseen_path_empty(routes, p, upto - 1);
    }
}

/// The routes grouped by path: the distinct paths in order of first
/// appearance, each with every route that carries it, in table order.
pub fn group_routes_by_path(routes: &Vec<RouteInfo>) -> (r: Vec<(String, Vec<RouteInfo>)>)
    ensures
        ({
            let gr = route_views(routes@);
            let keys = spec_group_keys_upto(gr, gr.len() as int);
            r@.len() == keys.len() && forall|g: int|
                0 <= g < keys.len() ==> (#[trigger] r@[g]).0@ == keys[g] && route_views(
                    r@[g].1@,
                ) == spec_routes_with_path_upto(gr, keys[g], gr.len() as int)
        }),
{
    let ghost gr = route_views(routes@);
    let mut groups: Vec<(String, Vec<RouteInfo>)> = Vec::new();
    let mut i: usize = 0;
    while i < routes.len()
        invariant
            gr == route_views(routes@),
            i <= routes@.len(),
            groups@.len() == spec_group_keys_upto(gr, i as int).len(),
            forall|g: int|
                0 <= g < groups@.len() ==> (#[trigger] groups@[g]).0@ == spec_group_keys_upto(
                    gr,
                    i as int,
                )[g] && route_views(groups@[g].1@) == spec_routes_with_path_upto(
                    gr,
                    spec_group_keys_upto(gr, i as int)[g],
                    i as int,
                ),
        decreases routes@.len() - i,
    {
        let ghost keys_pre = spec_group_keys_upto(gr, i as int);
        let route = &routes[i];
        assert(route@ == gr[i as int]);
        proof {
            lemma_group_keys_seen(gr, gr[i as int].path, i as int);
            lemma_group_keys_distinct(gr, i as int);
        }
        let mut found: Option<usize> = None;
        let mut g: usize = 0;
        while g < groups.len()
            invariant
                g <= groups@.len(),
                groups@.len() == keys_pre.len(),
                forall|t: int| 0 <= t < keys_pre.len() ==> (#[trigger] groups@[t]).0@ == keys_pre[t],
                match found {
                    Some(idx) => idx < groups@.len() && keys_pre[idx as int] == route.path@,
                    None => forall|t: int| 0 <= t < g ==> keys_pre[t] != route.path@,
                },
            decreases groups@.len() - g,
        {
            if found.is_none() && str_eq(groups[g].0.as_str(), route.path.as_str()) {
                assert((groups@[g as int]).0@ == route.path@);
                found = Some(g);
            }
            g = g + 1;
        }
        match found {
            Some(idx) => {
                proof {
                    assert(keys_pre.contains(gr[i as int].path)) by {
                        assert(keys_pre[idx as int] == gr[i as int].path);
                    }
                    assert(spec_path_seen(gr, gr[i as int].path, i as int));
                    assert(spec_group_keys_upto(gr, i + 1) == keys_pre);
                }
                let ghost ggroup = route_views(groups@[idx as int].1@);
                let entry = clone_route(route);
                groups[idx].1.push(entry);
                proof {
                    assert(route_views(groups@[idx as int].1@) =~= ggroup.push(gr[i as int]));
                    assert forall|g2: int| 0 <= g2 < groups@.len() implies
                        (#[trigger] groups@[g2]).0@ == spec_group_keys_upto(gr, i + 1)[g2]
                        && route_views(groups@[g2].1@) == spec_routes_with_path_upto(
                        gr,
                        spec_group_keys_upto(gr, i + 1)[g2],
                        i + 1,
                    ) by {
                        if g2 == idx {
                            assert(route_views(groups@[g2].1@) == spec_routes_with_path_upto(
                                gr,
                                keys_pre[g2],
                                i as int,
                            ).push(gr[i as int]));
                        } else {
                            assert(keys_pre[g2] != keys_pre[idx as int]);
                            assert(keys_pre[g2] != gr[i as int].path);
                        }
                    }
                }
            },
            None => {
                proof {
                    if keys_pre.contains(gr[i as int].path) {
                        let t = choose|t: int|
                            0 <= t < keys_pre.len() && #[trigger] keys_pre[t] == gr[
                                i as int
                            ].path;
                        assert(false);
                    }
                    assert(!spec_path_seen(gr, gr[i as int].path, i as int));
                    lemma_unseen_path_empty(gr, gr[i as int].path, i as int);
                }
                let mut members: Vec<RouteInfo> = Vec::new();
                members.push(clone_route(route));
                proof {
                    assert(route_views(members@) =~= Seq::<RouteInfoView>::empty().push(
                        gr[i as int],
                    ));
                }
                groups.push((route.path.clone(), members));
                proof {
                    assert(spec_group_keys_upto(gr, i + 1) == keys_pre.push(gr[i as int].path));
                    assert forall|g2: int| 0 <= g2 < groups@.len() implies
                        (#[trigger] groups@[g2]).0@ == spec_group_keys_upto(gr, i + 1)[g2]
                        && route_views(groups@[g2].1@) == spec_routes_with_path_upto(
                        gr,
                        spec_group_keys_upto(gr, i + 1)[g2],
                        i + 1,
                    ) by {
                        if g2 < groups@.len() - 1 {
                            assert(keys_pre.push(gr[i as int].path)[g2] == keys_pre[g2]);
                            assert(keys_pre.contains(keys_pre[g2])) by {
                                assert(keys_pre[g2] == keys_pre[g2]);
                            }
                            lemma_group_keys_seen(gr, keys_pre[g2], i as int);
                            assert(keys_pre[g2] != gr[i as int].path);
                        } else {
                            assert(keys_pre.push(gr[i as int].path)[g2] == gr[i as int].path);
                            assert(route_views(groups@[g2].1@) == spec_routes_with_path_upto(
                                gr,
                                gr[i as int].path,
                                i as int,
                            ).push(gr[i as int]));
                        }
                    }
                }
            },
        }
        i = i + 1;
    }
    groups
}

/// A copy of one route entry.
fn clone_route(r: &RouteInfo) -> (c: RouteInfo)
    ensures
        c@ == r@,
{
    RouteInfo {
        path: r.path.clone(),
        method: r.method.clone(),
        function_name: r.function_name.clone(),
        summary: match &r.summary {
            Some(s) => Some(s.clone()),
            None => None,
        },
        description: match &r.description {
            Some(s) => Some(s.clone()),
            None => None,
        },
    }
}

/// The first index of the given key in the path map.
pub open spec fn spec_key_index(
    m: Seq<(Seq<char>, PathItemView)>,
    k: Seq<char>,
    i: int,
) -> Option<int>
    decreases m.len() - i,
{
    if i < 0 || i >= m.len() {
        None
    } else if m[i].0 == k {
        Some(i)
    } else {
        spec_key_index(m, k, i + 1)
    }
}

/// The path map with the given key set: an existing key keeps its place
/// and takes the new item, a fresh key is appended.
pub open spec fn spec_assoc_set(
    m: Seq<(Seq<char>, PathItemView)>,
    k: Seq<char>,
    v: PathItemView,
) -> Seq<(Seq<char>, PathItemView)> {
    match spec_key_index(m, k, 0) {
        Some(t) => m.update(t, (k, v)),
        None => m.push((k, v)),
    }
}

/// The paths section assembled from the first `g` path groups: each
/// group's path converted to brace syntax and mapped to its assembled
/// path item; a converted path that repeats takes the later item.
pub open spec fn spec_built_paths(
    routes: Seq<RouteInfoView>,
    hs: Seq<HandlerDocumentationView>,
    reg: Seq<(Seq<char>, Seq<char>)>,
    g: int,
) -> Seq<(Seq<char>, PathItemView)>
    decreases g,
{
    let keys = spec_group_keys_upto(routes, routes.len() as int);
    if g <= 0 || g > keys.len() {
        Seq::empty()
    } else {
        spec_assoc_set(
            spec_built_paths(routes, hs, reg, g - 1),
            spec_convert_path(keys[g - 1]),
            spec_path_item_for(
                spec_routes_with_path_upto(routes, keys[g - 1], routes.len() as int),
                hs,
                reg,
                0,
                spec_empty_path_item(),
            ),
        )
    }
}

/// The paths section assembled from the route table.
pub fn build_paths(
    routes: &Vec<RouteInfo>,
    handlers: &Vec<HandlerDocumentation>,
    registry: &Vec<SchemaRegistration>,
) -> (r: Vec<(String, openapi::PathItem)>)
    ensures
        pair_views(r@) == spec_built_paths(
            route_views(routes@),
            handler_views(handlers@),
            reg_views(registry@),
            spec_group_keys_upto(route_views(routes@), routes@.len() as int).len() as int,
        ),
{
    let ghost gr = route_views(routes@);
    let ghost ghs = handler_views(handlers@);
    let ghost greg = reg_views(registry@);
    let ghost keys = spec_group_keys_upto(gr, gr.len() as int);
    let groups = group_routes_by_path(routes);
    let mut out: Vec<(String, openapi::PathItem)> = Vec::new();
    let mut g: usize = 0;
    while g < groups.len()
        invariant
            gr == route_views(routes@),
            ghs == handler_views(handlers@),
            greg == reg_views(registry@),
            keys == spec_group_keys_upto(gr, gr.len() as int),
            groups@.len() == keys.len(),
            forall|t: int|
                0 <= t < keys.len() ==> (#[trigger] groups@[t]).0@ == keys[t] && route_views(
                    groups@[t].1@,
                ) == spec_routes_with_path_upto(gr, keys[t], gr.len() as int),
            g <= groups@.len(),
            pair_views(out@) == spec_built_paths(gr, ghs, greg, g as int),
        decreases groups@.len() - g,
    {
        let key = convert_path_to_openapi(groups[g].0.as_str());
        let item = build_path(&groups[g].1, handlers, registry);
        let ghost gout = pair_views(out@);
        let mut idx: Option<usize> = None;
        let mut t: usize = 0;
        while t < out.len()
            invariant
                gout == pair_views(out@),
                t <= out@.len(),
                match idx {
                    Some(x) => x < out@.len() && spec_key_index(gout, key@, 0) == Some(x as int)
                        && (gout[x as int]).0 == key@,
                    None => spec_key_index(gout, key@, 0) == spec_key_index(gout, key@, t as int),
                },
            decreases out@.len() - t,
        {
            if idx.is_none() {
                if str_eq(out[t].0.as_str(), key.as_str()) {
                    assert((gout[t as int]).0 == key@);
                    idx = Some(t);
                } else {
                    assert((gout[t as int]).0 == out@[t as int].0@);
                }
            }
            t = t + 1;
        }
        match idx {
            Some(x) => {
                out.set(x, (key, item));
                proof {
                    assert(pair_views(out@) =~= gout.update(x as int, (key@, item@)));
                }
            },
            None => {
                out.push((key, item));
                proof {
                    assert(pair_views(out@) =~= gout.push(
                        (spec_convert_path(keys[g as int]), item@),
                    ));
                }
            },
        }
        g = g + 1;
    }
    out
}

/// Does some route's handler record mark the endpoint as requiring
/// authentication?
pub open spec fn spec_has_auth(
    routes: Seq<RouteInfoView>,
    hs: Seq<HandlerDocumentationView>,
    i: int,
) -> bool
    decreases routes.len() - i,
{
    if i < 0 || i >= routes.len() {
        false
    } else {
        (match spec_first_doc(hs, routes[i].function_name, 0) {
            Some(d) => spec_params_of_raw(d.parameters).1,
            None => false,
        }) || spec_has_auth(routes, hs, i + 1)
    }
}

/// Does some route's handler record mark the endpoint as requiring
/// authentication?
pub fn has_auth_endpoints(
    routes: &Vec<RouteInfo>,
    handlers: &Vec<HandlerDocumentation>,
) -> (r: bool)
    ensures
        r == spec_has_auth(route_views(routes@), handler_views(handlers@), 0),
{
    let ghost gr = route_views(routes@);
    let ghost ghs = handler_views(handlers@);
    let mut i: usize = 0;
    while i < routes.len()
        invariant
            gr == route_views(routes@),
            ghs == handler_views(handlers@),
            i <= routes@.len(),
            spec_has_auth(gr, ghs, 0) == spec_has_auth(gr, ghs, i as int),
        decreases routes@.len() - i,
    {
        assert(gr[i as int] == routes@[i as int]@);
        if let Some(d) = find_doc(handlers, routes[i].function_name.as_str()) {
            let (_params, auth) = parse_parameters_raw(d.parameters.as_str());
            if auth {
                return true;
            }
        }
        i = i + 1;
    }
    false
}

/// Was an earlier registry record already named `n`?
pub open spec fn spec_name_seen(reg: Seq<(Seq<char>, Seq<char>)>, n: Seq<char>, upto: int) -> bool {
    exists|j: int| 0 <= j < upto && (#[trigger] reg[j]).0 == n
}

/// Was an earlier registry record already named `n`?
fn name_seen(registry: &Vec<SchemaRegistration>, upto: usize, n: &str) -> (r: bool)
    requires
        upto <= registry@.len(),
    ensures
        r == spec_name_seen(reg_views(registry@), n@, upto as int),
{
    let ghost greg = reg_views(registry@);
    let mut j: usize = 0;
    while j < upto
        invariant
            greg == reg_views(registry@),
            upto <= registry@.len(),
            j <= upto,
            forall|t: int| 0 <= t < j ==> (#[trigger] greg[t]).0 != n@,
        decreases upto - j,
    {
        if str_eq(registry[j].name.as_str(), n) {
            assert((greg[j as int]).0 == n@);
            return true;
        }
        assert((greg[j as int]).0 == registry@[j as int].name@);
        j = j + 1;
    }
    false
}

/// The fallback schema text used when a registered text is not one JSON
/// object.
pub open spec fn spec_default_schema_text() -> Seq<char> {
    ("{\"type\":\"object\"}")@
}

/// The schemas section: the first registry record of each used name, its
/// text kept when it is one JSON object and replaced by the generic
/// object schema otherwise.
pub open spec fn spec_filtered_schemas(
    reg: Seq<(Seq<char>, Seq<char>)>,
    used: Set<Seq<char>>,
    i: int,
) -> Seq<(Seq<char>, Seq<char>)>
    decreases reg.len() - i,
{
    if i < 0 || i >= reg.len() {
        Seq::empty()
    } else {
        (if used.contains(reg[i].0) && !spec_name_seen(reg, reg[i].0, i) {
            seq![
                (
                    reg[i].0,
                    if json_object_text(reg[i].1) {
                        reg[i].1
                    } else {
                        spec_default_schema_text()
                    },
                ),
            ]
        } else {
            Seq::<(Seq<char>, Seq<char>)>::empty()
        }) + spec_filtered_schemas(reg, used, i + 1)
    }
}

/// The schemas section filtered down to the used names.
pub fn filter_used_schemas(
    registry: &Vec<SchemaRegistration>,
    used: &Vec<String>,
) -> (r: Vec<(String, String)>)
    ensures
        pair_views(r@) == spec_filtered_schemas(
            reg_views(registry@),
            views_of(used@).to_set(),
            0,
        ),
{
    let ghost greg = reg_views(registry@);
    let ghost guse = views_of(used@).to_set();
    let mut out: Vec<(String, String)> = Vec::new();
    let mut i: usize = 0;
    while i < registry.len()
        invariant
            greg == reg_views(registry@),
            guse == views_of(used@).to_set(),
            i <= registry@.len(),
            pair_views(out@) + spec_filtered_schemas(greg, guse, i as int)
                =~= spec_filtered_schemas(greg, guse, 0),
        decreases registry@.len() - i,
    {
        let name = registry[i].name.as_str();
        assert((greg[i as int]).0 == name@ && (greg[i as int]).1 == registry@[i as int].schema_json@);
        proof {
            broadcast use vstd::seq_lib::group_seq_properties;

            assert(views_of(used@).contains(name@) <==> guse.contains(name@));
        }
        if vec_has_str(used, name) && !name_seen(registry, i, name) {
            let text: String = if is_json_object_text(registry[i].schema_json.as_str()) {
                registry[i].schema_json.clone()
            } else {
                ("{\"type\":\"object\"}").to_owned()
            };
            let entry = (registry[i].name.clone(), text);
            proof {
                let ge = (greg[i as int].0, entry.1@);
                assert(pair_views(out@.push(entry)) =~= pair_views(out@).push(ge));
                assert(pair_views(out@) + (seq![ge] + spec_filtered_schemas(greg, guse, i + 1))
                    =~= (pair_views(out@) + seq![ge]) + spec_filtered_schemas(greg, guse, i + 1));
            }
            out.push(entry);
        }
        i = i + 1;
    }
    proof {
        assert(pair_views(out@) =~= spec_filtered_schemas(greg, guse, 0));
    }
    out
}

/// The fixed security scheme of the components section: an API key in a
/// header.
pub open spec fn spec_fixed_scheme() -> SecuritySchemeView {
    SecuritySchemeView {
        scheme_type: ("apiKey")@,
        description: Some(("API session token for authentication")@),
        name: Some(("x-session-secret")@),
        location: Some(("header")@),
        scheme: None,
        bearer_format: None,
    }
}

/// The security schemes section: the one fixed session scheme.
pub fn build_security_schemes() -> (r: Vec<(String, openapi::SecurityScheme)>)
    ensures
        pair_views(r@) == seq![(("sessionAuth")@, spec_fixed_scheme())],
{
    let mut out: Vec<(String, openapi::SecurityScheme)> = Vec::new();
    let scheme = openapi::SecurityScheme::api_key("x-session-secret", "header").with_description(
        "API session token for authentication",
    );
    out.push((("sessionAuth").to_owned(), scheme));
    proof {
        assert(pair_views(out@) =~= seq![(("sessionAuth")@, spec_fixed_scheme())]);
    }
    out
}

/// The components section, when there is anything to put in it: the used
/// schemas, and the fixed security scheme when some endpoint requires
/// authentication.
pub open spec fn spec_components_for(
    reg: Seq<(Seq<char>, Seq<char>)>,
    used: Set<Seq<char>>,
    auth: bool,
) -> Option<crate::openapi::ComponentsView> {
    let schemas = spec_filtered_schemas(reg, used, 0);
    if schemas.len() == 0 && !auth {
        None
    } else {
        Some(
            crate::openapi::ComponentsView {
                schemas: schemas,
                security_schemes: if auth {
                    Some(seq![(("sessionAuth")@, spec_fixed_scheme())])
                } else {
                    None
                },
            },
        )
    }
}

/// The components section assembled from the registry and the used set.
pub fn build_components(
    registry: &Vec<SchemaRegistration>,
    used: &Vec<String>,
    has_auth: bool,
) -> (r: Option<openapi::Components>)
    ensures
        opt_view(r) == spec_components_for(
            reg_views(registry@),
            views_of(used@).to_set(),
            has_auth,
        ),
{
    let schemas = filter_used_schemas(registry, used);
    if schemas.len() == 0 && !has_auth {
        proof {
            assert(pair_views(schemas@).len() == 0);
        }
        return None;
    }
    let security_schemes = if has_auth {
        Some(build_security_schemes())
    } else {
        None
    };
    Some(openapi::Components { schemas, security_schemes })
}

/// The registered names used by the first `i` routes, in route order.
pub open spec fn spec_seed_list(
    routes: Seq<RouteInfoView>,
    hs: Seq<HandlerDocumentationView>,
    reg: Seq<(Seq<char>, Seq<char>)>,
    i: int,
) -> Seq<Seq<char>>
    decreases routes.len() - i,
{
    if i < 0 || i >= routes.len() {
        Seq::empty()
    } else {
        spec_route_used(routes[i], hs, reg) + spec_seed_list(routes, hs, reg, i + 1)
    }
}

/// The seed set of one assembly run: the registered names the routed
/// handlers' request bodies and responses use.
pub open spec fn spec_seed_set(
    routes: Seq<RouteInfoView>,
    hs: Seq<HandlerDocumentationView>,
    reg: Seq<(Seq<char>, Seq<char>)>,
) -> Set<Seq<char>> {
    Set::new(
        |n: Seq<char>|
            spec_seed_list(routes, hs, reg, 0).contains(n) && spec_reg_has(reg, n),
    )
}

/// Inserts each registered name of the list into the seed vector, keeping
/// it duplicate-free.
fn insert_used(
    seeds: &mut Vec<String>,
    registry: &Vec<SchemaRegistration>,
    names: &Vec<String>,
)
    requires
        views_of(old(seeds)@).no_duplicates(),
    ensures
        views_of(final(seeds)@).no_duplicates(),
        forall|n: Seq<char>|
            #[trigger] views_of(final(seeds)@).contains(n) <==> views_of(old(seeds)@).contains(n)
                || (views_of(names@).contains(n) && spec_reg_has(reg_views(registry@), n)),
{
    let ghost greg = reg_views(registry@);
    let ghost gnames = views_of(names@);
    let mut i: usize = 0;
    while i < names.len()
        invariant
            greg == reg_views(registry@),
            gnames == views_of(names@),
            i <= names@.len(),
            views_of(seeds@).no_duplicates(),
            forall|n: Seq<char>|
                #[trigger] views_of(seeds@).contains(n) <==> views_of(old(seeds)@).contains(n) || (
                exists|t: int| 0 <= t < i && gnames[t] == n && spec_reg_has(greg, n)),
        decreases names@.len() - i,
    {
        let nm = names[i].as_str();
        assert(nm@ == gnames[i as int]);
        if !vec_has_str(seeds, nm) && crate::resolve::reg_has(registry, nm) {
            let ghost gs = views_of(seeds@);
            seeds.push(nm.to_owned());
            proof {
                broadcast use vstd::seq_lib::group_seq_properties;

                assert(views_of(seeds@) =~= gs.push(nm@));
                assert forall|n: Seq<char>|
                    #[trigger] views_of(seeds@).contains(n) implies gs.contains(n) || n == nm@ by {
                    let t = choose|t: int|
                        0 <= t < views_of(seeds@).len() && views_of(seeds@)[t] == n;
                    if t < gs.len() {
                        assert(gs[t] == n);
                    }
                }
                assert(views_of(seeds@).no_duplicates()) by {
                    assert(forall|a: int, b: int|
                        0 <= a < b < views_of(seeds@).len() ==> views_of(seeds@)[a] != views_of(
                            seeds@,
                        )[b]) by {
                        assert(forall|a: int|
                            0 <= a < gs.len() ==> gs[a] == #[trigger] views_of(seeds@)[a]);
                        assert(views_of(seeds@)[gs.len() as int] == nm@);
                        assert(!gs.contains(nm@));
                    }
                }
            }
        }
        i = i + 1;
    }
    proof {
        assert forall|n: Seq<char>| (exists|t: int|
            0 <= t < names@.len() && gnames[t] == n) implies gnames.contains(n) by {
        }
        assert forall|n: Seq<char>| gnames.contains(n) implies (exists|t: int|
            0 <= t < names@.len() && gnames[t] == n) by {
        }
    }
}

/// The registered names that one route's record uses, as the resolver
/// reports them.
fn route_used_names(
    route: &RouteInfo,
    handlers: &Vec<HandlerDocumentation>,
    registry: &Vec<SchemaRegistration>,
) -> (r: Vec<String>)
    ensures
        views_of(r@) == spec_route_used(route@, handler_views(handlers@), reg_views(registry@)),
{
    match find_doc(handlers, route.function_name.as_str()) {
        None => {
            let r: Vec<String> = Vec::new();
            proof {
                assert(views_of(r@) =~= Seq::<Seq<char>>::empty());
            }
            r
        },
        Some(d) => {
            let (_body, body_used) = parse_request_body_raw(d.request_body.as_str(), registry);
            let (_responses, resp_used) = parse_responses_raw(d.responses.as_str(), registry);
            let mut out: Vec<String> = Vec::new();
            let ghost ghead: Seq<Seq<char>> = match spec_request_body(
                d.request_body@,
                reg_views(registry@),
            ).1 {
                Some(n) => seq![n],
                None => Seq::<Seq<char>>::empty(),
            };
            if let Some(n) = body_used {
                out.push(n);
            }
            proof {
                assert(views_of(out@) =~= ghead);
            }
            let mut i: usize = 0;
            let ghost gresp = views_of(resp_used@);
            while i < resp_used.len()
                invariant
                    gresp == views_of(resp_used@),
                    i <= resp_used@.len(),
                    views_of(out@) =~= ghead + gresp.subrange(0, i as int),
                decreases resp_used@.len() - i,
            {
                let nm = resp_used[i].clone();
                proof {
                    assert(views_of(out@.push(nm)) =~= views_of(out@).push(nm@));
                    assert(ghead + gresp.subrange(0, i + 1) =~= (ghead + gresp.subrange(
                        0,
                        i as int,
                    )).push(gresp[i as int]));
                }
                out.push(nm);
                i = i + 1;
            }
            proof {
                assert(gresp.subrange(0, resp_used@.len() as int) =~= gresp);
                assert(views_of(out@) =~= spec_route_used(
                    route@,
                    handler_views(handlers@),
                    reg_views(registry@),
                ));
            }
            out
        },
    }
}

/// The seed names collected over the whole route table, duplicate-free:
/// exactly the seed set.
fn collect_seeds(
    routes: &Vec<RouteInfo>,
    handlers: &Vec<HandlerDocumentation>,
    registry: &Vec<SchemaRegistration>,
) -> (r: Vec<String>)
    ensures
        views_of(r@).no_duplicates(),
        forall|n: Seq<char>|
            #[trigger] views_of(r@).contains(n) <==> spec_seed_set(
                route_views(routes@),
                handler_views(handlers@),
                reg_views(registry@),
            ).contains(n),
        forall|n: Seq<char>|
            #[trigger] views_of(r@).contains(n) ==> spec_reg_has(reg_views(registry@), n),
{
    let ghost gr = route_views(routes@);
    let ghost ghs = handler_views(handlers@);
    let ghost greg = reg_views(registry@);
    let mut seeds: Vec<String> = Vec::new();
    let ghost mut gdone: Seq<Seq<char>> = Seq::empty();
    proof {
        assert(views_of(seeds@) =~= Seq::<Seq<char>>::empty());
    }
    let mut i: usize = 0;
    while i < routes.len()
        invariant
            gr == route_views(routes@),
            ghs == handler_views(handlers@),
            greg == reg_views(registry@),
            i <= routes@.len(),
            views_of(seeds@).no_duplicates(),
            gdone + spec_seed_list(gr, ghs, greg, i as int) =~= spec_seed_list(gr, ghs, greg, 0),
            forall|n: Seq<char>|
                #[trigger] views_of(seeds@).contains(n) <==> (gdone.contains(n) && spec_reg_has(
                    greg,
                    n,
                )),
        decreases routes@.len() - i,
    {
        assert(gr[i as int] == routes@[i as int]@);
        let names = route_used_names(&routes[i], handlers, registry);
        let ghost gnames = views_of(names@);
        let ghost gdone_old = gdone;
        insert_used(&mut seeds, registry, &names);
        proof {
            gdone = gdone + gnames;
            assert(gdone + spec_seed_list(gr, ghs, greg, i + 1) =~= gdone_old + (gnames
                + spec_seed_list(gr, ghs, greg, i + 1)));
            assert forall|n: Seq<char>| #[trigger] gdone.contains(n) implies (gdone_old.contains(n)
                || gnames.contains(n)) by {
                let t = choose|t: int| 0 <= t < gdone.len() && gdone[t] == n;
                if t < gdone_old.len() {
                    assert(gdone_old[t] == n);
                } else {
                    assert(gnames[t - gdone_old.len()] == n);
                }
            }
            assert forall|n: Seq<char>| gdone_old.contains(n) || gnames.contains(n) implies
                #[trigger] gdone.contains(n) by {
                if gdone_old.contains(n) {
                    let t = choose|t: int| 0 <= t < gdone_old.len() && gdone_old[t] == n;
                    assert(gdone[t] == n);
                } else {
                    let t = choose|t: int| 0 <= t < gnames.len() && gnames[t] == n;
                    assert(gdone[gdone_old.len() + t] == n);
                }
            }
        }
        i = i + 1;
    }
    proof {
        assert(gdone =~= spec_seed_list(gr, ghs, greg, 0));
        assert forall|n: Seq<char>|
            #[trigger] views_of(seeds@).contains(n) <==> spec_seed_set(gr, ghs, greg).contains(
            n,
        ) by {
        }
    }
    seeds
}


/// The info section copied into the document.
pub fn build_info(info: &Info) -> (r: openapi::Info)
    ensures
        r@ == info@,
{
    openapi::Info {
        title: info.title.clone(),
        version: info.version.clone(),
        description: match &info.description {
            Some(d) => Some(d.clone()),
            None => None,
        },
        terms_of_service: match &info.terms_of_service {
            Some(t) => Some(t.clone()),
            None => None,
        },
        contact: match &info.contact {
            Some(c) => Some(
                openapi::Contact {
                    name: match &c.name {
                        Some(n) => Some(n.clone()),
                        None => None,
                    },
                    url: match &c.url {
                        Some(u) => Some(u.clone()),
                        None => None,
                    },
                    email: match &c.email {
                        Some(e) => Some(e.clone()),
                        None => None,
                    },
                },
            ),
            None => None,
        },
        license: match &info.license {
            Some(l) => Some(
                openapi::License {
                    name: l.name.clone(),
                    url: match &l.url {
                        Some(u) => Some(u.clone()),
                        None => None,
                    },
                },
            ),
            None => None,
        },
    }
}

/// The declared tags copied into the document.
pub fn build_tags(tags: &Vec<Tag>) -> (r: Vec<openapi::Tag>)
    ensures
        Seq::new(r@.len(), |i: int| r@[i]@) == tag_views(tags@),
{
    let ghost gt = tag_views(tags@);
    let mut out: Vec<openapi::Tag> = Vec::new();
    let mut i: usize = 0;
    while i < tags.len()
        invariant
            gt == tag_views(tags@),
            i <= tags@.len(),
            Seq::new(out@.len(), |j: int| out@[j]@) =~= gt.subrange(0, i as int),
        decreases tags@.len() - i,
    {
        let t = &tags[i];
        let nt = openapi::Tag {
            name: t.name.clone(),
            description: match &t.description {
                Some(d) => Some(d.clone()),
                None => None,
            },
            external_docs: match &t.external_docs {
                Some(d) => Some(
                    openapi::ExternalDocs {
                        url: d.url.clone(),
                        description: match &d.description {
                            Some(x) => Some(x.clone()),
                            None => None,
                        },
                    },
                ),
                None => None,
            },
        };
        proof {
            assert(nt@ == gt[i as int]);
            assert(Seq::new(out@.push(nt).len(), |j: int| out@.push(nt)[j]@) =~= Seq::new(
                out@.len(),
                |j: int| out@[j]@,
            ).push(nt@));
            assert(gt.subrange(0, i + 1) =~= gt.subrange(0, i as int).push(gt[i as int]));
        }
        out.push(nt);
        i = i + 1;
    }
    proof {
        assert(gt.subrange(0, gt.len() as int) =~= gt);
    }
    out
}

/// The used-schema set of one assembly run: the names reachable from the
/// seed set by following `$ref` occurrences through the registry.
pub open spec fn spec_used_set(
    routes: Seq<RouteInfoView>,
    hs: Seq<HandlerDocumentationView>,
    reg: Seq<(Seq<char>, Seq<char>)>,
) -> Set<Seq<char>> {
    Set::new(|n: Seq<char>| spec_closure_has(reg, spec_seed_set(routes, hs, reg), n))
}

/// The whole document assembled from the assembler's inputs: the fixed
/// version marker, the info section, the grouped and converted paths, the
/// components section over the used-schema set, and the declared tags
/// when there are any.
pub open spec fn spec_assembled_doc(
    info: InfoView,
    tags: Seq<TagView>,
    routes: Seq<RouteInfoView>,
    hs: Seq<HandlerDocumentationView>,
    reg: Seq<(Seq<char>, Seq<char>)>,
) -> crate::openapi::OpenAPIView {
    crate::openapi::OpenAPIView {
        openapi: ("3.0.0")@,
        info: info,
        paths: spec_built_paths(
            routes,
            hs,
            reg,
            spec_group_keys_upto(routes, routes.len() as int).len() as int,
        ),
        components: spec_components_for(
            reg,
            spec_used_set(routes, hs, reg),
            spec_has_auth(routes, hs, 0),
        ),
        tags: if tags.len() == 0 {
            None
        } else {
            Some(tags)
        },
    }
}

/// The JSON text of the document assembled from the assembler's inputs.
pub open spec fn spec_openapi_json(
    info: InfoView,
    tags: Seq<TagView>,
    routes: Seq<RouteInfoView>,
    hs: Seq<HandlerDocumentationView>,
    reg: Seq<(Seq<char>, Seq<char>)>,
) -> Seq<char> {
    crate::emit::spec_document_json(spec_assembled_doc(info, tags, routes, hs, reg))
}

impl ApiRouter {
    /// Assembles the document and returns its JSON text. The text is a
    /// function of the info section, the declared tags, the route table
    /// and the two registries alone; the used-schema set is rebuilt from
    /// scratch, so repeated assembly from unchanged inputs returns the
    /// same text. Afterwards the assembler's used-schema set holds
    /// exactly the reachable names.
    pub fn openapi_json(&mut self) -> (r: String)
        ensures
            r@ == spec_openapi_json(
                old(self).openapi.info@,
                tag_views(old(self).openapi.tags@),
                route_views(old(self).routes@),
                handler_views(old(self).handlers@),
                reg_views(old(self).schemas@),
            ),
            final(self).openapi == old(self).openapi,
            final(self).routes == old(self).routes,
            final(self).handlers == old(self).handlers,
            final(self).schemas == old(self).schemas,
            forall|n: Seq<char>|
                #[trigger] views_of(final(self).used_schemas@).contains(n) <==> spec_used_set(
                    route_views(old(self).routes@),
                    handler_views(old(self).handlers@),
                    reg_views(old(self).schemas@),
                ).contains(n),
    {
        let ghost gr = route_views(self.routes@);
        let ghost ghs = handler_views(self.handlers@);
        let ghost greg = reg_views(self.schemas@);
        let mut used = collect_seeds(&self.routes, &self.handlers, &self.schemas);
        proof {
            assert(views_of(used@).to_set() =~= spec_seed_set(gr, ghs, greg));
        }
        close_used(&mut used, &self.schemas);
        let has_auth = has_auth_endpoints(&self.routes, &self.handlers);
        let info = build_info(&self.openapi.info);
        let tags = build_tags(&self.openapi.tags);
        let components = build_components(&self.schemas, &used, has_auth);
        proof {
            assert(views_of(used@).to_set() =~= spec_used_set(gr, ghs, greg));
        }
        let paths = build_paths(&self.routes, &self.handlers, &self.schemas);
        let tags_opt: Option<Vec<openapi::Tag>> = if tags.len() == 0 {
            None
        } else {
            Some(tags)
        };
        let doc = openapi::OpenAPI {
            openapi: ("3.0.0").to_owned(),
            info,
            paths,
            components,
            tags: tags_opt,
        };
        proof {
            assert(doc@ == spec_assembled_doc(
                old(self).openapi.info@,
                tag_views(old(self).openapi.tags@),
                gr,
                ghs,
                greg,
            )) by {
                let want = spec_assembled_doc(
                    old(self).openapi.info@,
                    tag_views(old(self).openapi.tags@),
                    gr,
                    ghs,
                    greg,
                );
                assert(doc@.paths == want.paths);
                assert(doc@.components == want.components);
                match doc.tags {
                    Some(ts) => {
                        assert(doc@.tags == Some(
                            Seq::new(ts@.len(), |i: int| ts@[i]@),
                        ));
                    },
                    None => {},
                }
                assert(doc@.tags == want.tags);
            }
        }
        let out = doc.render_json();
        self.used_schemas = used;
        out
    }

    /// The registered schema names left unused by the latest assembly,
    /// in sorted order, with one entry per registry record.
    pub fn get_unused_schemas_current(&self) -> (r: Vec<String>)
        ensures
            spec_sorted(views_of(r@)),
            views_of(r@).to_multiset() == spec_unused_list(
                reg_views(self.schemas@),
                views_of(self.used_schemas@).to_set(),
                0,
            ).to_multiset(),
    {
        let unused = unused_names(&self.schemas, &self.used_schemas);
        sort_strings(unused)
    }

    /// The registered schema names left unused, assembling first when no
    /// assembly has run yet.
    pub fn get_unused_schemas(&mut self) -> (r: Vec<String>)
        ensures
            spec_sorted(views_of(r@)),
            views_of(r@).to_multiset() == spec_unused_list(
                reg_views(final(self).schemas@),
                views_of(final(self).used_schemas@).to_set(),
                0,
            ).to_multiset(),
            final(self).openapi == old(self).openapi,
            final(self).routes == old(self).routes,
            final(self).handlers == old(self).handlers,
            final(self).schemas == old(self).schemas,
    {
        if self.used_schemas.len() == 0 {
            let _ = self.openapi_json();
        }
        self.get_unused_schemas_current()
    }
}

/// The names of registry records not in the used set, in registry order,
/// one entry per record.
pub open spec fn spec_unused_list(
    reg: Seq<(Seq<char>, Seq<char>)>,
    used: Set<Seq<char>>,
    i: int,
) -> Seq<Seq<char>>
    decreases reg.len() - i,
{
    if i < 0 || i >= reg.len() {
        Seq::empty()
    } else {
        (if used.contains(reg[i].0) {
            Seq::<Seq<char>>::empty()
        } else {
            seq![reg[i].0]
        }) + spec_unused_list(reg, used, i + 1)
    }
}

/// The names of registry records not in the used set.
fn unused_names(registry: &Vec<SchemaRegistration>, used: &Vec<String>) -> (r: Vec<String>)
    ensures
        views_of(r@) == spec_unused_list(reg_views(registry@), views_of(used@).to_set(), 0),
{
    let ghost greg = reg_views(registry@);
    let ghost guse = views_of(used@).to_set();
    let mut out: Vec<String> = Vec::new();
    let mut i: usize = 0;
    while i < registry.len()
        invariant
            greg == reg_views(registry@),
            guse == views_of(used@).to_set(),
            i <= registry@.len(),
            views_of(out@) + spec_unused_list(greg, guse, i as int) =~= spec_unused_list(
                greg,
                guse,
                0,
            ),
        decreases registry@.len() - i,
    {
        let name = registry[i].name.as_str();
        assert((greg[i as int]).0 == name@);
        assert(views_of(used@).contains(name@) <==> guse.contains(name@));
        if !vec_has_str(used, name) {
            let nm = registry[i].name.clone();
            proof {
                assert(views_of(out@.push(nm)) =~= views_of(out@).push(nm@));
                assert(views_of(out@) + (seq![nm@] + spec_unused_list(greg, guse, i + 1))
                    =~= (views_of(out@) + seq![nm@]) + spec_unused_list(greg, guse, i + 1));
            }
            out.push(nm);
        }
        i = i + 1;
    }
    proof {
        assert(views_of(out@) =~= spec_unused_list(greg, guse, 0));
    }
    out
}

/// Lexicographic order on character sequences by code point, from `i` on.
pub open spec fn spec_str_le_from(a: Seq<char>, b: Seq<char>, i: int) -> bool
    decreases a.len() - i,
{
    if i < 0 || i >= a.len() {
        true
    } else if i >= b.len() {
        false
    } else if (a[i] as u32) != (b[i] as u32) {
        (a[i] as u32) < (b[i] as u32)
    } else {
        spec_str_le_from(a, b, i + 1)
    }
}

/// Lexicographic order on character sequences by code point.
pub open spec fn spec_str_le(a: Seq<char>, b: Seq<char>) -> bool {
    spec_str_le_from(a, b, 0)
}

/// Is the sequence sorted under the lexicographic order?
pub open spec fn spec_sorted(v: Seq<Seq<char>>) -> bool {
    forall|a: int, b: int| 0 <= a < b < v.len() ==> spec_str_le(#[trigger] v[a], #[trigger] v[b])
}

/// Lexicographic comparison of two strings by code point.
pub fn str_le(a: &str, b: &str) -> (r: bool)
    ensures
        r == spec_str_le(a@, b@),
{
    let n = str_len(a);
    let m = str_len(b);
    let mut i: usize = 0;
    loop
        invariant
            n == a@.len(),
            m == b@.len(),
            i <= n,
            spec_str_le(a@, b@) == spec_str_le_from(a@, b@, i as int),
        decreases n - i,
    {
        if i >= n {
            return true;
        }
        if i >= m {
            return false;
        }
        let ca = char_at(a, i) as u32;
        let cb = char_at(b, i) as u32;
        if ca != cb {
            return ca < cb;
        }
        i = i + 1;
    }
}

/// The order is total: two strings compare one way or the other.
proof fn lemma_str_le_total(a: Seq<char>, b: Seq<char>, i: int)
    requires
        0 <= i,
    ensures
        spec_str_le_from(a, b, i) || spec_str_le_from(b, a, i),
    decreases a.len() - i,
{
    if i < a.len() && i < b.len() && (a[i] as u32) == (b[i] as u32) {
        lemma_str_le_total(a, b, i + 1);
    }
}

/// A sorted sequence compares favourably at any two positions.
proof fn lemma_sorted_index(v: Seq<Seq<char>>, a: int, b: int)
    requires
        spec_sorted(v),
        0 <= a < b < v.len(),
    ensures
        spec_str_le(v[a], v[b]),
{
}

/// The order is transitive.
proof fn lemma_str_le_trans(a: Seq<char>, b: Seq<char>, c: Seq<char>, i: int)
    requires
        0 <= i,
        spec_str_le_from(a, b, i),
        spec_str_le_from(b, c, i),
    ensures
        spec_str_le_from(a, c, i),
    decreases a.len() - i,
{
    if i < a.len() && i < b.len() && i < c.len() && (a[i] as u32) == (b[i] as u32) && (
    b[i] as u32) == (c[i] as u32) {
        lemma_str_le_trans(a, b, c, i + 1);
    }
}

/// The given strings in sorted order: an insertion sort, preserving the
/// multiset of entries.
pub fn sort_strings(v: Vec<String>) -> (r: Vec<String>)
    ensures
        spec_sorted(views_of(r@)),
        views_of(r@).to_multiset() == views_of(v@).to_multiset(),
{
    broadcast use vstd::seq_lib::group_seq_properties;

    let mut v = v;
    let ghost gorig = views_of(v@);
    let mut i: usize = 1;
    if v.len() == 0 {
        proof {
            assert(views_of(v@) =~= gorig);
        }
        return v;
    }
    while i < v.len()
        invariant
            1 <= i <= v@.len(),
            v@.len() == gorig.len(),
            views_of(v@).to_multiset() == gorig.to_multiset(),
            spec_sorted(views_of(v@).subrange(0, i as int)),
        decreases v@.len() - i,
    {
        let ghost gpre = views_of(v@);
        let x = v.remove(i);
        let ghost gafter = views_of(v@);
        proof {
            assert(gafter =~= gpre.remove(i as int));
            assert(gpre[i as int] == x@);
            vstd::seq_lib::to_multiset_remove(gpre, i as int);
        }
        let mut j: usize = i;
        while j > 0 && !str_le(v[j - 1].as_str(), x.as_str())
            invariant
                j <= i,
                i < gpre.len(),
                gafter == gpre.remove(i as int),
                views_of(v@) == gafter,
                v@.len() == gafter.len(),
                forall|t: int| j <= t < i ==> !spec_str_le(#[trigger] gafter[t], x@),
            decreases j,
        {
            proof {
                assert(views_of(v@)[j - 1] == v@[j - 1]@);
                assert(gafter[j - 1] == v@[j - 1]@);
            }
            j = j - 1;
        }
        proof {
            assert(j > 0 ==> spec_str_le(gafter[j - 1], x@));
        }
        v.insert(j, x);
        proof {
            let gnew = views_of(v@);
            assert(gnew =~= gafter.insert(j as int, x@));
            vstd::seq_lib::to_multiset_insert(gafter, j as int, x@);
            assert(gnew.to_multiset() =~= gorig.to_multiset()) by {
                broadcast use vstd::multiset::group_multiset_axioms;

                assert(gafter.to_multiset() == gpre.to_multiset().remove(x@));
                assert(gnew.to_multiset() == gafter.to_multiset().insert(x@));
                assert(gpre.to_multiset().contains(x@)) by {
                    vstd::seq_lib::to_multiset_contains(gpre, x@);
                    assert(gpre.contains(x@)) by {
                        assert(gpre[i as int] == x@);
                    }
                }
            }
            assert(spec_sorted(gnew.subrange(0, i + 1))) by {
                let pre = gnew.subrange(0, i + 1);
                let ghost spre = gpre.subrange(0, i as int);
                assert forall|a: int, b: int| 0 <= a < b < pre.len() implies spec_str_le(
                    #[trigger] pre[a],
                    #[trigger] pre[b],
                ) by {
                    assert(forall|t: int| 0 <= t < i ==> #[trigger] gafter[t] == gpre[t]);
                    assert(forall|t: int| 0 <= t < i ==> #[trigger] spre[t] == gpre[t]);
                    assert(forall|t: int| 0 <= t < j ==> #[trigger] pre[t] == gpre[t]);
                    assert(pre[j as int] == x@);
                    assert(forall|t: int| j < t <= i ==> #[trigger] pre[t] == gpre[t - 1]);
                    if a < j && b == j {
                        if j > 0 {
                            if a == j - 1 {
                                assert(spec_str_le(pre[a], x@));
                            } else {
                                lemma_sorted_index(spre, a, j - 1);
                                lemma_str_le_trans(gpre[a], gpre[j - 1], x@, 0);
                            }
                        }
                    } else if a == j && b > j {
                        assert(!spec_str_le(gafter[b - 1], x@));
                        lemma_str_le_total(gafter[b - 1], x@, 0);
                        assert(gafter[b - 1] == gpre[b - 1]);
                    } else if a < j && b > j {
                        lemma_sorted_index(spre, a, b - 1);
                    } else if a > j && b > j {
                        lemma_sorted_index(spre, a - 1, b - 1);
                    }
                }
            }
        }
        i = i + 1;
    }
    proof {
        assert(views_of(v@).subrange(0, v@.len() as int) =~= views_of(v@));
    }
    v
}

} // verus!
