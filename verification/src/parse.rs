//! The metadata line parser: decodes the raw encoded fields of a handler
//! record — parameter lines, response lines, request-body lines and tags —
//! into structured values. Parsing never fails: malformed input degrades
//! to documented fallback values.
//!
//! Each raw field is decoded in two tiers: a strict decoding of the outer
//! JSON array of strings first, then a legacy delimiter split when the
//! strict decoding is refused.

use vstd::prelude::*;

use crate::openapi::{Parameter, ParameterView, PropertySchemaView, ReferenceOr, ReferenceOrView,
    Schema, SchemaView};
use crate::strings::{char_at, find_char_from, spec_all_digits, spec_find_char, spec_split_char,
    spec_trim, spec_trim_char, spec_trim_end_char, spec_trim_start_char, split_char, str_eq,
    str_len, all_digits, starts_with, spec_match_at, substr, trim, trim_char, trim_end_char,
    trim_start_char, views_of};
use crate::trusted::{decode_string_array, json_string_array};

verus! {

/// The reserved parameter item that marks an endpoint as requiring
/// authentication.
pub open spec fn spec_auth_sentinel() -> Seq<char> {
    ("__REQUIRES_AUTH__")@
}

/// A string schema carrying the optional example and default of a
/// parameter.
pub open spec fn string_schema_view(ex: Option<Seq<char>>, de: Option<Seq<char>>) -> SchemaView {
    SchemaView {
        schema_type: Some(("string")@),
        title: None,
        description: None,
        properties: None,
        required: None,
        reference: None,
        example: ex,
        default_value: de,
    }
}

/// The fallback parameter for an item outside the grammar: a generic
/// query parameter whose description is the raw item.
pub open spec fn spec_fallback_param(item: Seq<char>) -> ParameterView {
    ParameterView {
        name: ("unknown")@,
        location: ("query")@,
        description: Some(item),
        required: false,
        schema: ReferenceOrView::Item(string_schema_view(None, None)),
    }
}

/// Scan of the bracketed metadata pairs of a description: recognises the
/// `example` and `default` keys, later occurrences winning; everything
/// else is ignored.
pub open spec fn spec_meta_scan(
    parts: Seq<Seq<char>>,
    i: int,
    ex: Option<Seq<char>>,
    de: Option<Seq<char>>,
) -> (Option<Seq<char>>, Option<Seq<char>>)
    decreases parts.len() - i,
{
    if i < 0 || i >= parts.len() {
        (ex, de)
    } else {
        let pt = spec_trim(parts[i]);
        match spec_find_char(pt, ':', 0) {
            Some(c) => {
                let key = spec_trim(pt.subrange(0, c));
                let val = spec_trim(pt.subrange(c + 1, pt.len() as int));
                if key == ("example")@ {
                    spec_meta_scan(parts, i + 1, Some(val), de)
                } else if key == ("default")@ {
                    spec_meta_scan(parts, i + 1, ex, Some(val))
                } else {
                    spec_meta_scan(parts, i + 1, ex, de)
                }
            },
            None => spec_meta_scan(parts, i + 1, ex, de),
        }
    }
}

/// A description split into its text and its trailing bracketed metadata:
/// the text before the last `[`, trimmed, and the recognised `example`
/// and `default` values. A description without a complete trailing
/// bracket is returned whole.
pub open spec fn spec_meta_of(desc: Seq<char>) -> (Seq<char>, Option<Seq<char>>, Option<
    Seq<char>,
>) {
    match crate::strings::spec_rfind_char(desc, '[', desc.len() as int) {
        Some(bs) => match spec_find_char(desc, ']', bs) {
            Some(be) => {
                let meta = desc.subrange(bs + 1, be);
                let clean = spec_trim(desc.subrange(0, bs));
                let (ex, de) = spec_meta_scan(spec_split_char(meta, ','), 0, None, None);
                (clean, ex, de)
            },
            None => (desc, None, None),
        },
        None => (desc, None, None),
    }
}

/// A description split into its text and its recognised `example` and
/// `default` metadata values.
pub fn parse_description_meta(desc: &str) -> (r: (String, Option<String>, Option<String>))
    ensures
        (
            r.0@,
            match r.1 {
                Some(e) => Some(e@),
                None => None,
            },
            match r.2 {
                Some(d) => Some(d@),
                None => None,
            },
        ) == spec_meta_of(desc@),
{
    let n = str_len(desc);
    let bs = match crate::strings::rfind_char(desc, '[') {
        Some(bs) => bs,
        None => {
            return (desc.to_owned(), None, None);
        },
    };
    let be = match find_char_from(desc, ']', bs) {
        Some(be) => be,
        None => {
            return (desc.to_owned(), None, None);
        },
    };
    proof {
        crate::strings::lemma_rfind_char_props(desc@, '[', desc@.len() as int);
        crate::strings::lemma_find_char_props(desc@, ']', bs as int);
    }
    let meta = substr(desc, bs + 1, be);
    let clean = trim(substr(desc, 0, bs).as_str());
    let parts = split_char(meta.as_str(), ',');
    let ghost gparts = spec_split_char(meta@, ',');
    let mut ex: Option<String> = None;
    let mut de: Option<String> = None;
    let mut i: usize = 0;
    while i < parts.len()
        invariant
            gparts == views_of(parts@),
            i <= parts@.len(),
            spec_meta_scan(gparts, 0, None, None) == spec_meta_scan(
                gparts,
                i as int,
                match ex {
                    Some(e) => Some(e@),
                    None => None,
                },
                match de {
                    Some(d) => Some(d@),
                    None => None,
                },
            ),
        decreases parts@.len() - i,
    {
        let pt = trim(parts[i].as_str());
        let m = str_len(pt.as_str());
        if let Some(c) = find_char_from(pt.as_str(), ':', 0) {
            let key = trim(substr(pt.as_str(), 0, c).as_str());
            let val = trim(substr(pt.as_str(), c + 1, m).as_str());
            if str_eq(key.as_str(), "example") {
                ex = Some(val);
            } else if str_eq(key.as_str(), "default") {
                de = Some(val);
            }
        }
        i = i + 1;
    }
    (clean, ex, de)
}

/// The structured reading of one parameter item, or its fallback: split
/// on the first colon, the left side holding `name (location)`, the
/// right side the description with optional bracketed metadata. The
/// parameter is required exactly when its location is `path`, and a
/// default value is kept only away from `path`.
pub open spec fn spec_parse_param(item: Seq<char>) -> ParameterView {
    match spec_find_char(item, ':', 0) {
        Some(c) => {
            let left = spec_trim(item.subrange(0, c));
            let desc0 = spec_trim(item.subrange(c + 1, item.len() as int));
            let ps = spec_find_char(left, '(', 0);
            let pe = spec_find_char(left, ')', 0);
            if ps is Some && pe is Some && ps.unwrap() + 1 <= pe.unwrap() {
                let name = spec_trim(left.subrange(0, ps.unwrap()));
                let loc = spec_trim(left.subrange(ps.unwrap() + 1, pe.unwrap()));
                let (clean, ex, de) = spec_meta_of(desc0);
                ParameterView {
                    name: name,
                    location: loc,
                    description: Some(clean),
                    required: loc == ("path")@,
                    schema: ReferenceOrView::Item(
                        string_schema_view(
                            ex,
                            if loc == ("path")@ {
                                None
                            } else {
                                de
                            },
                        ),
                    ),
                }
            } else {
                spec_fallback_param(item)
            }
        },
        None => spec_fallback_param(item),
    }
}

/// The fallback parameter for an item outside the grammar.
pub fn fallback_parameter(item: &str) -> (p: Parameter)
    ensures
        p@ == spec_fallback_param(item@),
{
    Parameter {
        name: ("unknown").to_owned(),
        location: ("query").to_owned(),
        description: Some(item.to_owned()),
        required: false,
        schema: ReferenceOr::Item(string_schema(None, None)),
    }
}

/// A string schema carrying the given example and default.
fn string_schema(ex: Option<String>, de: Option<String>) -> (s: Schema)
    ensures
        s@ == string_schema_view(
            match ex {
                Some(e) => Some(e@),
                None => None,
            },
            match de {
                Some(d) => Some(d@),
                None => None,
            },
        ),
{
    Schema {
        schema_type: Some(("string").to_owned()),
        title: None,
        description: None,
        properties: None,
        required: None,
        reference: None,
        example: ex,
        default_value: de,
    }
}

/// One parameter item parsed by the grammar, degrading to the fallback
/// parameter when the item does not fit.
pub fn parse_parameter_item(item: &str) -> (p: Parameter)
    ensures
        p@ == spec_parse_param(item@),
{
    let n = str_len(item);
    let c = match find_char_from(item, ':', 0) {
        Some(c) => c,
        None => {
            return fallback_parameter(item);
        },
    };
    let left = trim(substr(item, 0, c).as_str());
    let desc0 = trim(substr(item, c + 1, n).as_str());
    let ln = str_len(left.as_str());
    let ps = find_char_from(left.as_str(), '(', 0);
    let pe = find_char_from(left.as_str(), ')', 0);
    match (ps, pe) {
        (Some(a), Some(b)) => {
            if a + 1 <= b {
                let name = trim(substr(left.as_str(), 0, a).as_str());
                let loc = trim(substr(left.as_str(), a + 1, b).as_str());
                let (clean, ex, de) = parse_description_meta(desc0.as_str());
                let is_path = str_eq(loc.as_str(), "path");
                Parameter {
                    name,
                    location: loc,
                    description: Some(clean),
                    required: is_path,
                    schema: ReferenceOr::Item(
                        string_schema(
                            ex,
                            if is_path {
                                None
                            } else {
                                de
                            },
                        ),
                    ),
                }
            } else {
                fallback_parameter(item)
            }
        },
        _ => fallback_parameter(item),
    }
}

/// The parameter items with the authentication sentinel removed.
pub open spec fn spec_filter_auth(items: Seq<Seq<char>>, i: int) -> Seq<Seq<char>>
    decreases items.len() - i,
{
    if i < 0 || i >= items.len() {
        Seq::empty()
    } else {
        (if items[i] == spec_auth_sentinel() {
            Seq::<Seq<char>>::empty()
        } else {
            seq![items[i]]
        }) + spec_filter_auth(items, i + 1)
    }
}

/// Does the item list carry the authentication sentinel?
pub open spec fn spec_has_auth_item(items: Seq<Seq<char>>) -> bool {
    exists|k: int| 0 <= k < items.len() && items[k] == spec_auth_sentinel()
}

/// The parameters parsed from the item list, sentinel removed.
pub open spec fn spec_params_of_items(items: Seq<Seq<char>>) -> Seq<ParameterView> {
    let kept = spec_filter_auth(items, 0);
    Seq::new(kept.len(), |j: int| spec_parse_param(kept[j]))
}

/// The decoded parameter items parsed one by one. The sentinel item is
/// filtered out of the parameter list and reported as the flag instead;
/// every other item yields exactly one parameter, malformed ones the
/// fallback parameter.
pub fn parse_parameter_items(items: &Vec<String>) -> (r: (Vec<Parameter>, bool))
    ensures
        r.1 == spec_has_auth_item(views_of(items@)),
        Seq::new(r.0@.len(), |j: int| r.0@[j]@) == spec_params_of_items(views_of(items@)),
{
    let ghost gitems = views_of(items@);
    let mut params: Vec<Parameter> = Vec::new();
    let mut auth = false;
    let ghost mut fpre: Seq<Seq<char>> = Seq::empty();
    let mut i: usize = 0;
    while i < items.len()
        invariant
            gitems == views_of(items@),
            i <= items@.len(),
            fpre + spec_filter_auth(gitems, i as int) =~= spec_filter_auth(gitems, 0),
            params@.len() == fpre.len(),
            forall|j: int| 0 <= j < fpre.len() ==> params@[j]@ == spec_parse_param(#[trigger] fpre[j]),
            auth == exists|k: int| 0 <= k < i && gitems[k] == spec_auth_sentinel(),
        decreases items@.len() - i,
    {
        if str_eq(items[i].as_str(), "__REQUIRES_AUTH__") {
            auth = true;
            assert(gitems[i as int] == spec_auth_sentinel());
        } else {
            let p = parse_parameter_item(items[i].as_str());
            params.push(p);
            proof {
                let old_fpre = fpre;
                fpre = fpre.push(gitems[i as int]);
                assert(fpre + spec_filter_auth(gitems, i + 1) =~= old_fpre + spec_filter_auth(
                    gitems,
                    i as int,
                ));
            }
        }
        i = i + 1;
    }
    proof {
        assert(fpre =~= spec_filter_auth(gitems, 0));
        assert(Seq::new(params@.len(), |j: int| params@[j]@) =~= spec_params_of_items(
            views_of(items@),
        ));
    }
    (params, auth)
}

/// A tag cleaned as the legacy split leaves it: trimmed, then stripped of
/// surrounding quotes.
pub open spec fn spec_clean_tag(t: Seq<char>) -> Seq<char> {
    spec_trim_char(spec_trim(t), '"')
}

/// The legacy reading of a raw tags field: brackets trimmed, split on
/// commas, each piece cleaned.
pub open spec fn spec_legacy_tags(raw: Seq<char>) -> Seq<Seq<char>> {
    let inner = spec_trim_end_char(spec_trim_start_char(raw, '['), ']');
    let pieces = spec_split_char(inner, ',');
    Seq::new(pieces.len(), |i: int| spec_clean_tag(pieces[i]))
}

/// The tags of a raw tags field: none for an empty field, the decoded
/// strings verbatim when the strict decoding succeeds, the legacy
/// comma-split reading otherwise.
pub open spec fn spec_parse_tags(raw: Seq<char>) -> Seq<Seq<char>> {
    if raw == ("[]")@ || raw.len() == 0 {
        Seq::empty()
    } else {
        match json_string_array(raw) {
            Some(items) => items,
            None => spec_legacy_tags(raw),
        }
    }
}

/// The tags of a raw tags field.
pub fn parse_tags_raw(raw: &str) -> (r: Vec<String>)
    ensures
        views_of(r@) == spec_parse_tags(raw@),
{
    if str_eq(raw, "[]") || str_len(raw) == 0 {
        let r: Vec<String> = Vec::new();
        proof {
            assert(views_of(r@) =~= Seq::<Seq<char>>::empty());
        }
        return r;
    }
    match decode_string_array(raw) {
        Some(items) => {
            proof {
                assert(views_of(items@) =~= json_string_array(raw@).unwrap());
            }
            items
        },
        None => {
            let inner = trim_end_char(trim_start_char(raw, '[').as_str(), ']');
            let pieces = split_char(inner.as_str(), ',');
            let ghost gpieces = views_of(pieces@);
            let mut out: Vec<String> = Vec::new();
            let mut i: usize = 0;
            while i < pieces.len()
                invariant
                    gpieces == views_of(pieces@),
                    i <= pieces@.len(),
                    views_of(out@) =~= Seq::new(i as nat, |j: int| spec_clean_tag(gpieces[j])),
                decreases pieces@.len() - i,
            {
                let cleaned = trim_char(trim(pieces[i].as_str()).as_str(), '"');
                proof {
                    assert(views_of(out@.push(cleaned)) =~= views_of(out@).push(cleaned@));
                    assert(Seq::new((i + 1) as nat, |j: int| spec_clean_tag(gpieces[j]))
                        =~= Seq::new(i as nat, |j: int| spec_clean_tag(gpieces[j])).push(
                        spec_clean_tag(gpieces[i as int]),
                    ));
                }
                out.push(cleaned);
                i = i + 1;
            }
            proof {
                assert(views_of(out@) =~= spec_legacy_tags(raw@));
            }
            out
        },
    }
}

/// The marker item naming the declared error type of a handler.
pub open spec fn spec_error_prefix() -> Seq<char> {
    ("ErrorType: ")@
}

/// One response item read as a status line: split on the first colon,
/// the code trimmed and kept only when it is exactly three digits, the
/// description trimmed.
pub open spec fn spec_response_line(item: Seq<char>) -> Option<(Seq<char>, Seq<char>)> {
    match spec_find_char(item, ':', 0) {
        Some(c) => {
            let code = spec_trim(item.subrange(0, c));
            let desc = spec_trim(item.subrange(c + 1, item.len() as int));
            if spec_all_digits(code) && code.len() == 3 {
                Some((code, desc))
            } else {
                None
            }
        },
        None => None,
    }
}

/// The status lines of the decoded response items, in order; error-type
/// markers and items outside the grammar are dropped.
pub open spec fn spec_response_lines(items: Seq<Seq<char>>, i: int) -> Seq<(Seq<char>, Seq<char>)>
    decreases items.len() - i,
{
    if i < 0 || i >= items.len() {
        Seq::empty()
    } else {
        (if spec_match_at(items[i], spec_error_prefix(), 0) {
            Seq::<(Seq<char>, Seq<char>)>::empty()
        } else {
            match spec_response_line(items[i]) {
                Some(line) => seq![line],
                None => Seq::<(Seq<char>, Seq<char>)>::empty(),
            }
        }) + spec_response_lines(items, i + 1)
    }
}

/// The declared error type named by the last error-type marker, if any.
pub open spec fn spec_error_type_of(
    items: Seq<Seq<char>>,
    i: int,
    cur: Option<Seq<char>>,
) -> Option<Seq<char>>
    decreases items.len() - i,
{
    if i < 0 || i >= items.len() {
        cur
    } else {
        let nxt = if spec_match_at(items[i], spec_error_prefix(), 0) {
            Some(items[i].subrange(spec_error_prefix().len() as int, items[i].len() as int))
        } else {
            cur
        };
        spec_error_type_of(items, i + 1, nxt)
    }
}

/// The status lines and the declared error type of the decoded response
/// items.
pub fn parse_response_lines(items: &Vec<String>) -> (r: (Vec<(String, String)>, Option<String>))
    ensures
        crate::openapi::pair_views(r.0@) == spec_response_lines(views_of(items@), 0),
        (match r.1 {
            Some(e) => Some(e@),
            None => None,
        }) == spec_error_type_of(views_of(items@), 0, None),
{
    let ghost gitems = views_of(items@);
    let mut lines: Vec<(String, String)> = Vec::new();
    let mut errty: Option<String> = None;
    let mut i: usize = 0;
    while i < items.len()
        invariant
            gitems == views_of(items@),
            i <= items@.len(),
            crate::openapi::pair_views(lines@) + spec_response_lines(gitems, i as int)
                =~= spec_response_lines(gitems, 0),
            spec_error_type_of(
                gitems,
                i as int,
                match errty {
                    Some(e) => Some(e@),
                    None => None,
                },
            ) == spec_error_type_of(gitems, 0, None),
        decreases items@.len() - i,
    {
        let item = items[i].as_str();
        let n = str_len(item);
        if starts_with(item, "ErrorType: ") {
            let m = str_len("ErrorType: ");
            proof {
                assert(spec_error_prefix().len() <= gitems[i as int].len());
            }
            errty = Some(substr(item, m, n));
        } else {
            if let Some(c) = find_char_from(item, ':', 0) {
                let code = trim(substr(item, 0, c).as_str());
                let desc = trim(substr(item, c + 1, n).as_str());
                if all_digits(code.as_str()) && str_len(code.as_str()) == 3 {
                    proof {
                        let gl = spec_response_line(gitems[i as int]).unwrap();
                        assert(crate::openapi::pair_views(lines@.push((code, desc)))
                            =~= crate::openapi::pair_views(lines@).push((code@, desc@)));
                        assert(crate::openapi::pair_views(lines@).push((code@, desc@)) + spec_response_lines(
                            gitems,
                            i + 1,
                        ) =~= crate::openapi::pair_views(lines@) + (seq![gl] + spec_response_lines(
                            gitems,
                            i + 1,
                        )));
                    }
                    lines.push((code, desc));
                }
            }
        }
        i = i + 1;
    }
    proof {
        assert(crate::openapi::pair_views(lines@) =~= spec_response_lines(gitems, 0));
    }
    (lines, errty)
}

/// The legacy reading of a raw responses field: brackets trimmed, split
/// on double quotes, blank and comma pieces dropped, the rest read as
/// status lines.
pub open spec fn spec_legacy_response_pieces(raw: Seq<char>) -> Seq<Seq<char>> {
    spec_split_char(spec_trim_end_char(spec_trim_start_char(raw, '['), ']'), '"')
}

/// The status lines taken from the legacy pieces.
pub open spec fn spec_legacy_response_lines(pieces: Seq<Seq<char>>, i: int) -> Seq<
    (Seq<char>, Seq<char>),
>
    decreases pieces.len() - i,
{
    if i < 0 || i >= pieces.len() {
        Seq::empty()
    } else {
        let pt = spec_trim(pieces[i]);
        (if pt == (",")@ || pt.len() == 0 {
            Seq::<(Seq<char>, Seq<char>)>::empty()
        } else {
            match spec_response_line(pt) {
                Some(line) => seq![line],
                None => Seq::<(Seq<char>, Seq<char>)>::empty(),
            }
        }) + spec_legacy_response_lines(pieces, i + 1)
    }
}

/// The status lines of the legacy reading of a raw responses field.
pub fn parse_legacy_response_lines(raw: &str) -> (r: Vec<(String, String)>)
    ensures
        crate::openapi::pair_views(r@) == spec_legacy_response_lines(
            spec_legacy_response_pieces(raw@),
            0,
        ),
{
    let inner = trim_end_char(trim_start_char(raw, '[').as_str(), ']');
    let pieces = split_char(inner.as_str(), '"');
    let ghost gpieces = views_of(pieces@);
    let mut lines: Vec<(String, String)> = Vec::new();
    let mut i: usize = 0;
    while i < pieces.len()
        invariant
            gpieces == views_of(pieces@),
            gpieces == spec_legacy_response_pieces(raw@),
            i <= pieces@.len(),
            crate::openapi::pair_views(lines@) + spec_legacy_response_lines(gpieces, i as int)
                =~= spec_legacy_response_lines(gpieces, 0),
        decreases pieces@.len() - i,
    {
        let pt = trim(pieces[i].as_str());
        let m = str_len(pt.as_str());
        if !(str_eq(pt.as_str(), ",") || m == 0) {
            if let Some(c) = find_char_from(pt.as_str(), ':', 0) {
                let code = trim(substr(pt.as_str(), 0, c).as_str());
                let desc = trim(substr(pt.as_str(), c + 1, m).as_str());
                if all_digits(code.as_str()) && str_len(code.as_str()) == 3 {
                    proof {
                        let gl = spec_response_line(spec_trim(gpieces[i as int])).unwrap();
                        assert(crate::openapi::pair_views(lines@.push((code, desc)))
                            =~= crate::openapi::pair_views(lines@).push((code@, desc@)));
                        assert(crate::openapi::pair_views(lines@).push((code@, desc@))
                            + spec_legacy_response_lines(gpieces, i + 1)
                            =~= crate::openapi::pair_views(lines@) + (seq![gl]
                            + spec_legacy_response_lines(gpieces, i + 1)));
                    }
                    lines.push((code, desc));
                }
            }
        }
        i = i + 1;
    }
    proof {
        assert(crate::openapi::pair_views(lines@) =~= spec_legacy_response_lines(gpieces, 0));
    }
    lines
}

} // verus!
