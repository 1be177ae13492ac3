//! What is sent for a case: the headers, and the body in the encoding that
//! the case's `Content-Type` header asks for.

use vstd::prelude::*;
use crate::data::pairs_view;
use crate::json::{items_match, json_text, members_match, Json, JsonView};
use crate::text::{append_str, chars_of, same_chars, string_of};

verus! {

/// How the payload is encoded.
#[derive(Clone, Copy, Debug, PartialEq, Eq, Structural)]
pub enum BodyKind {
    Json,
    Form,
    Multipart,
}

/// One part of a multipart body.
#[derive(Debug)]
pub enum FormPart {
    /// A text part.
    Field { name: String, value: String },
    /// A file part: the file at `path` is sent under the field `name`,
    /// named by its base name `filename`, with the media type `mime` that
    /// the extension of that name suggests.
    File { name: String, path: String, filename: String, mime: String },
    /// A file entry that lacks its field name or its path.
    Unreadable,
}

/// A part with its texts as character sequences.
pub enum PartView {
    Field { name: Seq<char>, value: Seq<char> },
    File { name: Seq<char>, path: Seq<char>, filename: Seq<char>, mime: Seq<char> },
    Unreadable,
}

/// The body of a request.
#[derive(Debug)]
pub enum RequestBody {
    /// The payload as JSON.
    Json(Json),
    /// The payload's members, form-encoded.
    Form(Json),
    /// The parts of a multipart form.
    Multipart(Vec<FormPart>),
}

/// A request, ready to be sent.
#[derive(Debug)]
pub struct RequestPlan {
    pub method: String,
    pub url: String,
    /// Every header but `Content-Type`, which the body's encoding sets.
    pub headers: Vec<(String, String)>,
    pub body: RequestBody,
}

/// The view of a part.
pub open spec fn part_view(p: FormPart) -> PartView {
    match p {
        FormPart::Field { name, value } => PartView::Field { name: name@, value: value@ },
        FormPart::File { name, path, filename, mime } => PartView::File {
            name: name@,
            path: path@,
            filename: filename@,
            mime: mime@,
        },
        FormPart::Unreadable => PartView::Unreadable,
    }
}

/// The views of a list of parts.
pub open spec fn parts_view(v: Seq<FormPart>) -> Seq<PartView> {
    Seq::new(v.len(), |i: int| part_view(v[i]))
}

/// `c` in lower case, for the letters `A` to `Z`; any other character as
/// it is.
pub open spec fn lower(c: char) -> char {
    if 'A' <= c && c <= 'Z' {
        ((c as u8) + 32) as char
    } else {
        c
    }
}

/// `s` with the letters `A` to `Z` in lower case.
pub open spec fn lowered(s: Seq<char>) -> Seq<char> {
    Seq::new(s.len(), |i: int| lower(s[i]))
}

/// Whether a header name is `Content-Type`, in any case.
pub open spec fn is_content_type(name: Seq<char>) -> bool {
    lowered(name) == "content-type"@
}

/// The header that carries a bearer token.
pub open spec fn auth_header(token: Seq<char>) -> (Seq<char>, Seq<char>) {
    ("Authorization"@, "Bearer "@ + token)
}

/// The headers of one request: those of the case and, for an authorized
/// case while a token is held, the bearer header after them.
pub open spec fn with_auth(
    headers: Seq<(Seq<char>, Seq<char>)>,
    authorized: bool,
    token: Option<Seq<char>>,
) -> Seq<(Seq<char>, Seq<char>)> {
    match token {
        Some(t) => if authorized {
            headers.push(auth_header(t))
        } else {
            headers
        },
        None => headers,
    }
}

/// The first `n` headers without any `Content-Type`.
pub open spec fn sendable_upto(headers: Seq<(Seq<char>, Seq<char>)>, n: int) -> Seq<
    (Seq<char>, Seq<char>),
>
    decreases n,
{
    if n <= 0 || n > headers.len() {
        Seq::empty()
    } else if is_content_type(headers[n - 1].0) {
        sendable_upto(headers, n - 1)
    } else {
        sendable_upto(headers, n - 1).push(headers[n - 1])
    }
}

/// The headers that are sent as they are: all but `Content-Type`.
pub open spec fn sendable(headers: Seq<(Seq<char>, Seq<char>)>) -> Seq<(Seq<char>, Seq<char>)> {
    sendable_upto(headers, headers.len() as int)
}

/// The value of the first `Content-Type` header at or after `i`, in lower
/// case.
pub open spec fn content_type_from(headers: Seq<(Seq<char>, Seq<char>)>, i: int) -> Option<
    Seq<char>,
>
    decreases headers.len() - i,
{
    if i < 0 || i >= headers.len() {
        None
    } else if is_content_type(headers[i].0) {
        Some(lowered(headers[i].1))
    } else {
        content_type_from(headers, i + 1)
    }
}

/// The encoding a content type asks for; JSON where none is given or the
/// one given is not known.
pub open spec fn kind_for(content_type: Option<Seq<char>>) -> BodyKind {
    match content_type {
        Some(t) => if t == "application/x-www-form-urlencoded"@ {
            BodyKind::Form
        } else if t == "multipart/form-data"@ {
            BodyKind::Multipart
        } else {
            BodyKind::Json
        },
        None => BodyKind::Json,
    }
}

/// The content type that an encoding is recorded under.
pub open spec fn kind_name(kind: BodyKind) -> Seq<char> {
    match kind {
        BodyKind::Json => "application/json"@,
        BodyKind::Form => "application/x-www-form-urlencoded"@,
        BodyKind::Multipart => "multipart/form-data"@,
    }
}

/// The text part that one member of `fields` gives: a string as it is, an
/// object or array as compact JSON; nothing for any other value.
pub open spec fn field_part(name: Seq<char>, value: JsonView) -> Option<PartView> {
    match value {
        JsonView::Text(s) => Some(PartView::Field { name, value: s }),
        JsonView::Object(_, _) => Some(PartView::Field { name, value: json_text(value) }),
        JsonView::Array(_) => Some(PartView::Field { name, value: json_text(value) }),
        _ => None,
    }
}

/// The text parts that the first `n` members give, in order.
pub open spec fn field_parts_upto(names: Seq<Seq<char>>, values: Seq<JsonView>, n: int) -> Seq<
    PartView,
>
    decreases n,
{
    if n <= 0 || n > names.len() || n > values.len() {
        Seq::empty()
    } else {
        field_parts_upto(names, values, n - 1) + match field_part(names[n - 1], values[n - 1]) {
            Some(p) => seq![p],
            None => Seq::empty(),
        }
    }
}

/// Index of the last `c` among the first `n` characters of `s`, or -1.
pub open spec fn last_index(s: Seq<char>, c: char, n: int) -> int
    decreases n,
{
    if n <= 0 || n > s.len() {
        -1
    } else if s[n - 1] == c {
        n - 1
    } else {
        last_index(s, c, n - 1)
    }
}

/// The base name of a path: what follows its last `/`, or all of it.
pub open spec fn base_name(path: Seq<char>) -> Seq<char> {
    path.subrange(last_index(path, '/', path.len() as int) + 1, path.len() as int)
}

/// The extension of a file name: what follows its last `.`; none for a
/// name without `.` and for one whose only `.` is its first character.
pub open spec fn extension_of(name: Seq<char>) -> Seq<char> {
    let dot = last_index(name, '.', name.len() as int);
    if dot <= 0 {
        Seq::empty()
    } else {
        name.subrange(dot + 1, name.len() as int)
    }
}

/// The media type listed first for the extension `ext`, in any case, or
/// `application/octet-stream` where none is listed.
pub uninterp spec fn ext_mime(ext: Seq<char>) -> Seq<char>;

/// The file part that one entry of `files` gives.
pub open spec fn file_part(entry: JsonView) -> PartView {
    match (entry.member("fieldname"@), entry.member("filepath"@)) {
        (Some(JsonView::Text(n)), Some(JsonView::Text(p))) => PartView::File {
            name: n,
            path: p,
            filename: base_name(p),
            mime: ext_mime(extension_of(base_name(p))),
        },
        _ => PartView::Unreadable,
    }
}

/// The file parts that the entries give, one for each.
pub open spec fn file_parts(entries: Seq<JsonView>) -> Seq<PartView> {
    Seq::new(entries.len(), |i: int| file_part(entries[i]))
}

/// The member `name` of the member `form-data` of `data`.
pub open spec fn form_member(data: JsonView, name: Seq<char>) -> Option<JsonView> {
    match data.member("form-data"@) {
        Some(f) => f.member(name),
        None => None,
    }
}

/// The parts of the multipart form that `data` describes: a text part for
/// each member of `form-data.fields`, then a file part for each entry of
/// `form-data.files`.
pub open spec fn parts_of(data: JsonView) -> Seq<PartView> {
    let fields = match form_member(data, "fields"@) {
        Some(JsonView::Object(names, values)) => field_parts_upto(
            names,
            values,
            names.len() as int,
        ),
        _ => Seq::empty(),
    };
    let files = match form_member(data, "files"@) {
        Some(JsonView::Array(entries)) => file_parts(entries),
        _ => Seq::empty(),
    };
    fields + files
}

/// How one part is shown.
pub open spec fn part_text(p: PartView) -> Seq<char> {
    match p {
        PartView::Field { name, value } => "----boundary-placeholder\r\nContent-Disposition: form-data; name=\""@
            + name + "\"\r\n\r\n"@ + value,
        PartView::File { name, path, filename, mime } => "--boundary-placeholder\r\nContent-Disposition: form-data; name=\""@
            + name + "\"; filename=\""@ + path
            + "\"\r\nContent-Type: application/octet-stream\r\n\r\n<binary content omitted for display>"@,
        PartView::Unreadable => Seq::empty(),
    }
}

/// The first `n` parts as shown, each followed by a line break.
pub open spec fn shown_upto(parts: Seq<PartView>, n: int) -> Seq<char>
    decreases n,
{
    if n <= 0 || n > parts.len() {
        Seq::empty()
    } else {
        shown_upto(parts, n - 1) + part_text(parts[n - 1]) + "\r\n"@
    }
}

/// A multipart body as shown to the operator: the parts on lines of their
/// own, then the closing boundary.
pub open spec fn shown(parts: Seq<PartView>) -> Seq<char> {
    shown_upto(parts, parts.len() as int) + "----boundary-placeholder--"@
}

/// `mime_guess::from_ext` and `MimeGuess::first_or_octet_stream`: the
/// media type that the crate's table lists first for `ext`, looked up
/// without regard to case; `application/octet-stream` where `ext` is empty
/// or not in the table.
#[verifier::external_body]
fn mime_for_ext(ext: &str) -> (r: String)
    ensures
        r@ == ext_mime(ext@),
        ext@.len() == 0 ==> r@ == "application/octet-stream"@,
{
    mime_guess::from_ext(ext).first_or_octet_stream().as_ref().to_owned()
}

fn last_index_of(s: &Vec<char>, c: char) -> (r: Option<usize>)
    ensures
        match r {
            Some(i) => last_index(s@, c, s@.len() as int) == i && i < s.len(),
            None => last_index(s@, c, s@.len() as int) == -1,
        },
{
    let mut n: usize = s.len();
    while n > 0
        invariant
            n <= s.len(),
            last_index(s@, c, s@.len() as int) == last_index(s@, c, n as int),
        decreases n,
    {
        if s[n - 1] == c {
            return Some(n - 1);
        }
        n -= 1;
    }
    None
}

/// The base name of `path`.
pub fn file_name(path: &str) -> (r: String)
    ensures
        r@ == base_name(path@),
{
    let s = chars_of(path);
    let from = match last_index_of(&s, '/') {
        Some(i) => i + 1,
        None => 0,
    };
    let name = crate::text::slice_of(&s, from, s.len());
    string_of(&name)
}

/// The media type that the extension of the file name `name` suggests.
pub fn media_type(name: &str) -> (r: String)
    ensures
        r@ == ext_mime(extension_of(name@)),
{
    let s = chars_of(name);
    let ext = match last_index_of(&s, '.') {
        Some(i) => if i > 0 {
            crate::text::slice_of(&s, i + 1, s.len())
        } else {
            Vec::new()
        },
        None => Vec::new(),
    };
    let ext_text = string_of(&ext);
    mime_for_ext(ext_text.as_str())
}

fn lower_char(c: char) -> (r: char)
    ensures
        r == lower(c),
{
    if 'A' <= c && c <= 'Z' {
        ((c as u8) + 32) as char
    } else {
        c
    }
}

/// `s` with the letters `A` to `Z` in lower case.
pub fn to_lower(s: &str) -> (r: Vec<char>)
    ensures
        r@ == lowered(s@),
{
    let v = chars_of(s);
    let mut r: Vec<char> = Vec::new();
    let mut i: usize = 0;
    while i < v.len()
        invariant
            i <= v.len(),
            r@.len() == i,
            forall|j: int| 0 <= j < i ==> r@[j] == lower(v@[j]),
        decreases v.len() - i,
    {
        r.push(lower_char(v[i]));
        i += 1;
    }
    assert(r@ =~= lowered(v@));
    r
}

/// Whether `name` is `Content-Type`, in any case.
pub fn names_content_type(name: &str) -> (b: bool)
    ensures
        b == is_content_type(name@),
{
    let l = to_lower(name);
    let target = chars_of("content-type");
    same_chars(&l, &target)
}

/// The headers to send as they are: `headers` without any `Content-Type`.
pub fn sendable_headers(headers: &Vec<(String, String)>) -> (r: Vec<(String, String)>)
    ensures
        pairs_view(r@) == sendable(pairs_view(headers@)),
{
    let mut r: Vec<(String, String)> = Vec::new();
    let mut i: usize = 0;
    assert(pairs_view(r@) =~= sendable_upto(pairs_view(headers@), 0));
    while i < headers.len()
        invariant
            i <= headers.len(),
            pairs_view(r@) == sendable_upto(pairs_view(headers@), i as int),
        decreases headers.len() - i,
    {
        let ghost before = pairs_view(r@);
        if !names_content_type(headers[i].0.as_str()) {
            r.push((headers[i].0.clone(), headers[i].1.clone()));
            assert(pairs_view(r@) =~= before.push(pairs_view(headers@)[i as int]));
        }
        i += 1;
    }
    r
}

/// The encoding that `headers` ask for.
pub fn body_kind(headers: &Vec<(String, String)>) -> (k: BodyKind)
    ensures
        k == kind_for(content_type_from(pairs_view(headers@), 0)),
{
    let mut i: usize = 0;
    while i < headers.len()
        invariant
            i <= headers.len(),
            content_type_from(pairs_view(headers@), 0) == content_type_from(
                pairs_view(headers@),
                i as int,
            ),
        decreases headers.len() - i,
    {
        if names_content_type(headers[i].0.as_str()) {
            let value = to_lower(headers[i].1.as_str());
            let form = chars_of("application/x-www-form-urlencoded");
            let multipart = chars_of("multipart/form-data");
            assert(content_type_from(pairs_view(headers@), i as int) == Some(value@));
            return if same_chars(&value, &form) {
                BodyKind::Form
            } else if same_chars(&value, &multipart) {
                BodyKind::Multipart
            } else {
                BodyKind::Json
            };
        }
        i += 1;
    }
    BodyKind::Json
}

/// The content type that `kind` is recorded under.
pub fn kind_label(kind: BodyKind) -> (r: String)
    ensures
        r@ == kind_name(kind),
{
    match kind {
        BodyKind::Json => "application/json".to_owned(),
        BodyKind::Form => "application/x-www-form-urlencoded".to_owned(),
        BodyKind::Multipart => "multipart/form-data".to_owned(),
    }
}

fn form_member_of<'a>(data: &'a Json, name: &str) -> (r: Option<&'a Json>)
    ensures
        match r {
            Some(j) => form_member(data@, name@) == Some(j@),
            None => form_member(data@, name@) is None,
        },
{
    match data.get("form-data") {
        Some(f) => f.get(name),
        None => None,
    }
}

/// The parts of the multipart form that `data` describes.
pub fn multipart_parts(data: &Json) -> (parts: Vec<FormPart>)
    ensures
        parts_view(parts@) == parts_of(data@),
{
    let mut parts: Vec<FormPart> = Vec::new();
    assert(parts_view(parts@) =~= Seq::empty());
    let fields_member = match form_member_of(data, "fields") {
        Some(f) => f.members(),
        None => None,
    };
    match fields_member {
        Some(members) => {
            let ghost names = crate::json::names_of(form_member(data@, "fields"@)->0);
            let ghost values = crate::json::values_of(form_member(data@, "fields"@)->0);
            let mut i: usize = 0;
            while i < members.len()
                invariant
                    i <= members.len(),
                    members_match(names, values, members@),
                    parts_view(parts@) == field_parts_upto(names, values, i as int),
                decreases members.len() - i,
            {
                let ghost before = parts_view(parts@);
                assert(names[i as int] == members@[i as int].0@);
                assert(values[i as int] == members@[i as int].1@);
                match &members[i].1 {
                    Json::Text(s) => {
                        parts.push(FormPart::Field { name: members[i].0.clone(), value: s.clone() });
                        assert(parts_view(parts@) =~= before + seq![
                            field_part(names[i as int], values[i as int])->0,
                        ]);
                    },
                    Json::Object(_) => {
                        parts.push(
                            FormPart::Field {
                                name: members[i].0.clone(),
                                value: members[i].1.render(),
                            },
                        );
                        assert(parts_view(parts@) =~= before + seq![
                            field_part(names[i as int], values[i as int])->0,
                        ]);
                    },
                    Json::Array(_) => {
                        parts.push(
                            FormPart::Field {
                                name: members[i].0.clone(),
                                value: members[i].1.render(),
                            },
                        );
                        assert(parts_view(parts@) =~= before + seq![
                            field_part(names[i as int], values[i as int])->0,
                        ]);
                    },
                    _ => {
                        assert(field_part(names[i as int], values[i as int]) is None);
                        assert(parts_view(parts@) =~= before + Seq::empty());
                    },
                }
                i += 1;
            }
        },
        None => {},
    }
    let ghost fields = parts_view(parts@);
    let files_member = match form_member_of(data, "files") {
        Some(f) => f.items(),
        None => None,
    };
    match files_member {
        Some(entries) => {
            let ghost views = form_member(data@, "files"@)->0->Array_0;
            let mut i: usize = 0;
            assert(parts_view(parts@) =~= fields + file_parts(views).subrange(0, 0));
            while i < entries.len()
                invariant
                    i <= entries.len(),
                    items_match(views, entries@),
                    parts_view(parts@) == fields + file_parts(views).subrange(0, i as int),
                decreases entries.len() - i,
            {
                let ghost before = parts_view(parts@);
                assert(views[i as int] == entries@[i as int]@);
                let name = match entries[i].get("fieldname") {
                    Some(Json::Text(n)) => Some(n.clone()),
                    _ => None,
                };
                let path = match entries[i].get("filepath") {
                    Some(Json::Text(p)) => Some(p.clone()),
                    _ => None,
                };
                let part = match (name, path) {
                    (Some(n), Some(p)) => {
                        let filename = file_name(p.as_str());
                        let mime = media_type(filename.as_str());
                        FormPart::File { name: n, path: p, filename, mime }
                    },
                    _ => FormPart::Unreadable,
                };
                assert(part_view(part) == file_part(views[i as int]));
                let ghost added = part_view(part);
                parts.push(part);
                assert(parts_view(parts@) =~= before.push(added));
                assert(file_parts(views)[i as int] == added);
                i += 1;
                assert(parts_view(parts@) =~= fields + file_parts(views).subrange(0, i as int));
            }
            assert(file_parts(views).subrange(0, views.len() as int) =~= file_parts(views));
        },
        None => {
            assert(parts_view(parts@) =~= fields + Seq::empty());
        },
    }
    parts
}

/// A multipart body as shown to the operator.
pub fn show_parts(parts: &Vec<FormPart>) -> (r: String)
    ensures
        r@ == shown(parts_view(parts@)),
{
    let mut out: Vec<char> = Vec::new();
    let mut i: usize = 0;
    while i < parts.len()
        invariant
            i <= parts.len(),
            out@ == shown_upto(parts_view(parts@), i as int),
        decreases parts.len() - i,
    {
        let ghost before = out@;
        match &parts[i] {
            FormPart::Field { name, value } => {
                append_str(
                    &mut out,
                    "----boundary-placeholder\r\nContent-Disposition: form-data; name=\"",
                );
                append_str(&mut out, name.as_str());
                append_str(&mut out, "\"\r\n\r\n");
                append_str(&mut out, value.as_str());
            },
            FormPart::File { name, path, filename, mime } => {
                append_str(
                    &mut out,
                    "--boundary-placeholder\r\nContent-Disposition: form-data; name=\"",
                );
                append_str(&mut out, name.as_str());
                append_str(&mut out, "\"; filename=\"");
                append_str(&mut out, path.as_str());
                append_str(
                    &mut out,
                    "\"\r\nContent-Type: application/octet-stream\r\n\r\n<binary content omitted for display>",
                );
            },
            FormPart::Unreadable => {},
        }
        assert(out@ =~= before + part_text(parts_view(parts@)[i as int]));
        append_str(&mut out, "\r\n");
        i += 1;
    }
    append_str(&mut out, "----boundary-placeholder--");
    string_of(&out)
}

/// While no token is held, the headers of a request are those of the case:
/// no bearer header is added, whatever the case's role.
pub proof fn lemma_no_token_no_bearer(headers: Seq<(Seq<char>, Seq<char>)>, authorized: bool)
    ensures
        with_auth(headers, authorized, None) == headers,
{
}

/// Every header that is sent is one of those given.
pub proof fn lemma_sendable_from_given(headers: Seq<(Seq<char>, Seq<char>)>, n: int, k: int)
    requires
        0 <= n <= headers.len(),
        0 <= k < sendable_upto(headers, n).len(),
    ensures
        exists|j: int| 0 <= j < n && headers[j] == sendable_upto(headers, n)[k],
    decreases n,
{
    if n > 0 {
        let before = sendable_upto(headers, n - 1);
        if k < before.len() {
            lemma_sendable_from_given(headers, n - 1, k);
            let j = choose|j: int| 0 <= j < n - 1 && headers[j] == before[k];
            assert(headers[j] == sendable_upto(headers, n)[k]);
        } else {
            assert(headers[n - 1] == sendable_upto(headers, n)[k]);
        }
    }
}

/// While no token is held, a case whose own headers name no
/// `Authorization` sends none, whatever its role.
pub proof fn lemma_no_token_no_authorization(
    headers: Seq<(Seq<char>, Seq<char>)>,
    authorized: bool,
    k: int,
)
    requires
        forall|j: int| 0 <= j < headers.len() ==> (#[trigger] headers[j]).0 != "Authorization"@,
        0 <= k < sendable(with_auth(headers, authorized, None)).len(),
    ensures
        sendable(with_auth(headers, authorized, None))[k].0 != "Authorization"@,
{
    lemma_sendable_from_given(headers, headers.len() as int, k);
    let j = choose|j: int| 0 <= j < headers.len() && headers[j] == sendable(headers)[k];
    assert(headers[j].0 != "Authorization"@);
}

} // verus!
