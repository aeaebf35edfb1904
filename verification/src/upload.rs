//! Where uploaded files go in a user's workspace: the file types accepted,
//! the names they are stored under, and the directory a form asks for.
//!
//! The caller reads the multipart form, writes the files and indexes them;
//! the functions here decide what is written where, and what is refused.
use vstd::prelude::*;
use crate::html::{replace_all, replace_all_chars};
use crate::report::{lowercase, to_lowercase_string};
use crate::sse::{lossy_text, utf8_lossy};
use crate::text::{chars_eq, chars_of, contains_seq, find_from_exec, push_chars, push_str, split_on, string_of, trim, trim_chars};

verus! {

/// A form field: its name, its file name (empty for a plain field), its data.
pub type FormField = (String, String, Vec<u8>);

/// The piece of `s` after its last `sep` (all of `s` without one), as
/// `str::rsplit(sep).next()` gives it.
pub open spec fn last_piece(s: Seq<char>, sep: char) -> Seq<char> {
    split_on(s, sep).last()
}

/// The extension an uploaded file is judged by: the lower-cased text after
/// the last dot of its name.
pub open spec fn upload_extension_spec(filename: Seq<char>) -> Seq<char> {
    lowercase(last_piece(filename, '.'))
}

/// The accepted extensions.
pub open spec fn allowed_extension(ext: Seq<char>) -> bool {
    ext == "pdf"@ || ext == "md"@ || ext == "html"@ || ext == "htm"@ || ext == "xlsx"@ || ext == "xls"@
        || ext == "docx"@ || ext == "doc"@
}

/// Every extension that the type error lists as allowed is accepted: a form
/// holding one file field whose name ends in `.pdf`, `.md`, `.html`, `.htm`,
/// `.xlsx`, `.xls`, `.docx` or `.doc` (in any case) plans that one file under
/// its safe name and ends with no error.
pub proof fn lemma_listed_types_are_accepted(root: Seq<char>, dir: Option<Seq<char>>, f: FormField)
    requires
        is_file_field(f),
        ({
            let e = upload_extension_spec(f.1@);
            e == "pdf"@ || e == "md"@ || e == "html"@ || e == "htm"@ || e == "xlsx"@ || e == "xls"@ || e == "docx"@
                || e == "doc"@
        }),
    ensures
        plan_spec(seq![f], root, dir).1 is None,
        plan_spec(seq![f], root, dir).0.len() == 1,
        plan_spec(seq![f], root, dir).0[0].1 == safe_name_spec(f.1@),
{
    let fs = seq![f];
    assert(fs.drop_last() =~= Seq::<FormField>::empty());
    assert(fs.last() == f);
    assert(plan_spec(fs.drop_last(), root, dir) == (Seq::<(int, Seq<char>, Seq<char>, Seq<char>)>::empty(), None::<
        Seq<char>,
    >));
    assert(allowed_extension(upload_extension_spec(f.1@)));
}

/// The error for a refused file type.
pub open spec fn type_error(ext: Seq<char>) -> Seq<char> {
    "File type '"@ + ext + "' not allowed. Allowed types: pdf, md, html, xlsx, xls, docx, doc"@
}

/// The name a file is stored under: `..` removed, then `/` and `\` turned
/// into `_`.
pub open spec fn safe_name_spec(filename: Seq<char>) -> Seq<char> {
    replace_all(replace_all(replace_all(filename, ".."@, ""@), "/"@, "_"@), "\\"@, "_"@)
}

/// The error when a form carries no file.
pub open spec fn no_files_message() -> Seq<char> {
    "No files uploaded"@
}

/// The field naming the target directory: `path`, without a file name.
pub open spec fn is_path_field(f: FormField) -> bool {
    f.0@ == "path"@ && f.1@.len() == 0
}

/// A field carrying a file: named otherwise than `path`, with a file name.
pub open spec fn is_file_field(f: FormField) -> bool {
    f.0@ != "path"@ && f.1@.len() > 0
}

/// The target directory a form asks for: the trimmed text of its last
/// `path` field.
pub open spec fn target_dir_spec(fields: Seq<FormField>) -> Option<Seq<char>>
    decreases fields.len(),
{
    if fields.len() == 0 {
        None
    } else if is_path_field(fields.last()) {
        Some(trim(utf8_lossy(fields.last().2@)))
    } else {
        target_dir_spec(fields.drop_last())
    }
}

/// The directory is the workspace root itself.
pub open spec fn is_root_dir(dir: Seq<char>) -> bool {
    dir.len() == 0 || dir == "."@
}

/// A target directory that stays inside the workspace: not an absolute path
/// and without a `..` component.
pub open spec fn safe_dir(d: Seq<char>) -> bool {
    !(d.len() > 0 && d[0] == '/') && !split_on(d, '/').contains(".."@)
}

/// The directory the form asks for may be used: none, or a safe one.
pub open spec fn dir_allowed(dir: Option<Seq<char>>) -> bool {
    match dir {
        Some(d) => safe_dir(d),
        None => true,
    }
}

/// The error for a target directory that would leave the workspace.
pub open spec fn invalid_dir_message(d: Seq<char>) -> Seq<char> {
    "Invalid upload path: "@ + d
}

/// Where a file stored as `name` goes: its full path under `root`, and its
/// path relative to `root`.
pub open spec fn destination(root: Seq<char>, dir: Option<Seq<char>>, name: Seq<char>) -> (Seq<char>, Seq<char>) {
    match dir {
        Some(d) => if is_root_dir(d) {
            (root + "/"@ + name, name)
        } else {
            (root + "/"@ + d + "/"@ + name, d + "/"@ + name)
        },
        None => (root + "/"@ + name, name),
    }
}

/// A file to write: the field it comes from, the name it is stored under,
/// its full path and its path in the workspace.
pub struct PlannedUpload {
    pub field: usize,
    pub filename: String,
    pub file_path: String,
    pub relative_path: String,
}

/// The files a form's fields lead to writing, in order, and the error the
/// request ends with: the type error of the first refused file (later files
/// are not written), or none.
pub open spec fn plan_spec(
    fields: Seq<FormField>,
    root: Seq<char>,
    dir: Option<Seq<char>>,
) -> (Seq<(int, Seq<char>, Seq<char>, Seq<char>)>, Option<Seq<char>>)
    decreases fields.len(),
{
    if fields.len() == 0 {
        (seq![], None)
    } else {
        let (p, err) = plan_spec(fields.drop_last(), root, dir);
        let f = fields.last();
        if err is Some || !is_file_field(f) {
            (p, err)
        } else if !allowed_extension(upload_extension_spec(f.1@)) {
            (p, Some(type_error(upload_extension_spec(f.1@))))
        } else {
            let name = safe_name_spec(f.1@);
            let d = destination(root, dir, name);
            (p.push((fields.len() - 1, name, d.0, d.1)), None)
        }
    }
}

/// A planned file by its parts.
pub open spec fn planned_view(u: PlannedUpload) -> (int, Seq<char>, Seq<char>, Seq<char>) {
    (u.field as int, u.filename@, u.file_path@, u.relative_path@)
}

/// The name a file is stored under.
pub fn safe_upload_name(filename: &str) -> (r: String)
    ensures
        r@ == safe_name_spec(filename@),
{
    let a = replace_all_chars(&chars_of(filename), &chars_of(".."), &chars_of(""));
    let b = replace_all_chars(&a, &chars_of("/"), &chars_of("_"));
    let c = replace_all_chars(&b, &chars_of("\\"), &chars_of("_"));
    string_of(&c)
}

fn last_piece_chars(s: &Vec<char>, sep: char) -> (r: Vec<char>)
    ensures
        r@ == last_piece(s@, sep),
{
    let pieces = crate::text::split_chars(s.as_slice(), sep);
    proof {
        crate::text::lemma_split_on_nonempty(s@, sep);
    }
    let n = pieces.len();
    let mut out: Vec<char> = Vec::new();
    push_chars(&mut out, &pieces[n - 1]);
    out
}

/// The extension an uploaded file is judged by.
pub fn upload_extension(filename: &str) -> (r: String)
    ensures
        r@ == upload_extension_spec(filename@),
{
    let last = last_piece_chars(&chars_of(filename), '.');
    to_lowercase_string(string_of(&last).as_str())
}

/// The extension is accepted.
pub fn is_allowed_extension(ext: &str) -> (r: bool)
    ensures
        r == allowed_extension(ext@),
{
    let e = chars_of(ext);
    chars_eq(&e, &chars_of("pdf")) || chars_eq(&e, &chars_of("md")) || chars_eq(&e, &chars_of("html"))
        || chars_eq(&e, &chars_of("htm")) || chars_eq(&e, &chars_of("xlsx")) || chars_eq(&e, &chars_of("xls"))
        || chars_eq(&e, &chars_of("docx")) || chars_eq(&e, &chars_of("doc"))
}

/// The target directory a form asks for.
pub fn upload_target_dir(fields: &Vec<FormField>) -> (r: Option<String>)
    ensures
        match r {
            Some(d) => target_dir_spec(fields@) == Some(d@),
            None => target_dir_spec(fields@) is None,
        },
{
    let mut i: usize = fields.len();
    assert(fields@.take(i as int) =~= fields@);
    while i > 0
        invariant
            i <= fields@.len(),
            target_dir_spec(fields@) == target_dir_spec(fields@.take(i as int)),
        decreases i,
    {
        let ghost t = fields@.take(i as int);
        assert(t.drop_last() =~= fields@.take(i - 1));
        let f = &fields[i - 1];
        if chars_eq(&chars_of(f.0.as_str()), &chars_of("path")) && chars_of(f.1.as_str()).len() == 0 {
            let text = lossy_text(f.2.as_slice());
            return Some(string_of(&trim_chars(&chars_of(text.as_str()))));
        }
        i -= 1;
    }
    assert(fields@.take(0) =~= Seq::<FormField>::empty());
    None
}

/// Where a file stored as `name` goes: `None` when the directory would leave
/// the workspace (an absolute path or one with a `..` component); otherwise
/// the full path, which is the workspace root, `/` and the relative path.
pub fn upload_destination(workspace_root: &str, dir: Option<&str>, name: &str) -> (r: Option<(String, String)>)
    ensures
        ({
            let dv = match dir {
                Some(d) => Some(d@),
                None => None,
            };
            &&& r is Some <==> dir_allowed(dv)
            &&& r matches Some(p) ==> (p.0@, p.1@) == destination(workspace_root@, dv, name@)
                && p.0@ == workspace_root@ + "/"@ + p.1@
        }),
{
    let mut full = chars_of(workspace_root);
    push_str(&mut full, "/");
    let mut rel: Vec<char> = Vec::new();
    match dir {
        Some(d) => {
            if !is_safe_dir(d) {
                return None;
            }
            let dc = chars_of(d);
            if !(dc.len() == 0 || chars_eq(&dc, &chars_of("."))) {
                push_str(&mut rel, d);
                push_str(&mut rel, "/");
            }
        },
        None => {},
    }
    push_str(&mut rel, name);
    push_chars(&mut full, &rel);
    Some((string_of(&full), string_of(&rel)))
}

/// The directory stays inside the workspace.
pub fn is_safe_dir(d: &str) -> (r: bool)
    ensures
        r == safe_dir(d@),
{
    let dc = chars_of(d);
    if dc.len() > 0 && dc[0] == '/' {
        return false;
    }
    let pieces = crate::text::split_chars(dc.as_slice(), '/');
    let dots = chars_of("..");
    let mut k: usize = 0;
    while k < pieces.len()
        invariant
            k <= pieces@.len(),
            dc@ == d@,
            dots@ == ".."@,
            pieces@.len() == split_on(d@, '/').len(),
            forall|j: int| 0 <= j < pieces@.len() ==> #[trigger] pieces@[j]@ == split_on(d@, '/')[j],
            forall|j: int| 0 <= j < k ==> split_on(d@, '/')[j] != ".."@,
        decreases pieces@.len() - k,
    {
        if chars_eq(&pieces[k], &dots) {
            assert(split_on(d@, '/')[k as int] == ".."@);
            return false;
        }
        k += 1;
    }
    assert(!split_on(d@, '/').contains(".."@));
    true
}

/// What an upload form leads to: the files to write, in order, and the error
/// the request ends with: a target directory that would leave the workspace
/// (nothing is written), the first refused file type, or `No files
/// uploaded` when there is nothing to write. Every file planned lies below
/// the workspace root, in a safe directory.
pub fn plan_uploads(workspace_root: &str, fields: &Vec<FormField>) -> (r: (Vec<PlannedUpload>, Option<String>))
    ensures
        !dir_allowed(target_dir_spec(fields@)) ==> r.0@.len() == 0 && (r.1 matches Some(m) && m@
            == invalid_dir_message(target_dir_spec(fields@)->Some_0)),
        dir_allowed(target_dir_spec(fields@)) ==> ({
            let (p, err) = plan_spec(fields@, workspace_root@, target_dir_spec(fields@));
            &&& r.0@.map_values(|u: PlannedUpload| planned_view(u)) == p
            &&& match err {
                Some(e) => r.1 matches Some(m) && m@ == e,
                None => if p.len() == 0 {
                    r.1 matches Some(m) && m@ == no_files_message()
                } else {
                    r.1 is None
                },
            }
        }),
{
    let dir = upload_target_dir(fields);
    let ghost dv = target_dir_spec(fields@);
    let mut planned: Vec<PlannedUpload> = Vec::new();
    if let Some(d) = &dir {
        if !is_safe_dir(d.as_str()) {
            let mut m = chars_of("Invalid upload path: ");
            push_str(&mut m, d.as_str());
            return (planned, Some(string_of(&m)));
        }
    }
    let mut i: usize = 0;
    while i < fields.len()
        invariant
            i <= fields@.len(),
            dv == target_dir_spec(fields@),
            dir_allowed(dv),
            match dir {
                Some(d) => dv == Some(d@),
                None => dv is None,
            },
            plan_spec(fields@.take(i as int), workspace_root@, dv).1 is None,
            planned@.map_values(|u: PlannedUpload| planned_view(u)) == plan_spec(fields@.take(i as int), workspace_root@, dv).0,
        decreases fields@.len() - i,
    {
        assert(fields@.take(i + 1).drop_last() =~= fields@.take(i as int));
        assert(fields@.take(i + 1).last() == fields@[i as int]);
        let f = &fields[i];
        let is_path = chars_eq(&chars_of(f.0.as_str()), &chars_of("path"));
        if !is_path && chars_of(f.1.as_str()).len() > 0 {
            let ext = upload_extension(f.1.as_str());
            if !is_allowed_extension(ext.as_str()) {
                let mut m = chars_of("File type '");
                push_str(&mut m, ext.as_str());
                push_str(&mut m, "' not allowed. Allowed types: pdf, md, html, xlsx, xls, docx, doc");
                proof {
                    lemma_plan_stops(fields@, workspace_root@, dv, i as int + 1);
                }
                assert(fields@.take(fields@.len() as int) =~= fields@);
                return (planned, Some(string_of(&m)));
            }
            let name = safe_upload_name(f.1.as_str());
            let dest = match &dir {
                Some(d) => upload_destination(workspace_root, Some(d.as_str()), name.as_str()),
                None => upload_destination(workspace_root, None, name.as_str()),
            };
            let (full, rel) = match dest {
                Some(p) => p,
                None => {
                    assert(false);
                    (String::new(), String::new())
                },
            };
            let ghost before = planned@.map_values(|u: PlannedUpload| planned_view(u));
            planned.push(PlannedUpload { field: i, filename: name, file_path: full, relative_path: rel });
            assert(planned@.map_values(|u: PlannedUpload| planned_view(u)) =~= before.push(
                planned_view(planned@.last()),
            ));
        }
        i += 1;
    }
    assert(fields@.take(fields@.len() as int) =~= fields@);
    if planned.len() == 0 {
        return (planned, Some(string_of(&chars_of("No files uploaded"))));
    }
    (planned, None)
}

/// Once a file is refused, later fields change nothing.
proof fn lemma_plan_stops(fields: Seq<FormField>, root: Seq<char>, dir: Option<Seq<char>>, k: int)
    requires
        0 < k <= fields.len(),
        plan_spec(fields.take(k), root, dir).1 is Some,
    ensures
        plan_spec(fields, root, dir) == plan_spec(fields.take(k), root, dir),
    decreases fields.len() - k,
{
    if k < fields.len() {
        assert(fields.take(k + 1).drop_last() =~= fields.take(k));
        assert(plan_spec(fields.take(k + 1), root, dir) == plan_spec(fields.take(k), root, dir));
        lemma_plan_stops(fields, root, dir, k + 1);
    } else {
        assert(fields.take(k) =~= fields);
    }
}

/// Where an uploaded PDF goes: under `uploads/` in the workspace, named
/// after the upload (`uploaded.pdf` without a name) made safe. Returns the
/// stored name, the full path and the workspace path.
pub fn pdf_upload_target(workspace_root: &str, filename: Option<&str>) -> (r: (String, String, String))
    ensures
        ({
            let name = safe_name_spec(match filename {
                Some(f) => f@,
                None => "uploaded.pdf"@,
            });
            &&& r.0@ == name
            &&& r.1@ == workspace_root@ + "/uploads/"@ + name
            &&& r.2@ == "uploads/"@ + name
        }),
{
    let name = match filename {
        Some(f) => safe_upload_name(f),
        None => safe_upload_name("uploaded.pdf"),
    };
    let mut full = chars_of(workspace_root);
    push_str(&mut full, "/uploads/");
    push_str(&mut full, name.as_str());
    let mut rel = chars_of("uploads/");
    push_str(&mut rel, name.as_str());
    (name, string_of(&full), string_of(&rel))
}

/// The file name of a workspace path: the part after its last `/`.
pub fn path_file_name(path: &str) -> (r: String)
    ensures
        r@ == last_piece(path@, '/'),
{
    string_of(&last_piece_chars(&chars_of(path), '/'))
}

/// A file name that stays in its directory: no `..`, `/` or `\\`.
pub open spec fn plain_file_name(name: Seq<char>) -> bool {
    !contains_seq(name, ".."@) && !name.contains('/') && !name.contains('\\')
}

fn has_char(s: &Vec<char>, c: char) -> (r: bool)
    ensures
        r == s@.contains(c),
{
    let mut i: usize = 0;
    while i < s.len()
        invariant
            i <= s@.len(),
            forall|k: int| 0 <= k < i ==> s@[k] != c,
        decreases s@.len() - i,
    {
        if s[i] == c {
            assert(s@[i as int] == c);
            return true;
        }
        i += 1;
    }
    false
}

/// Whether a requested image name stays in its directory.
pub fn is_plain_file_name(name: &str) -> (r: bool)
    ensures
        r == plain_file_name(name@),
{
    let cs = chars_of(name);
    let dots = chars_of("..");
    let found = find_from_exec(cs.as_slice(), dots.as_slice(), 0);
    proof {
        crate::text::lemma_find_from_correct(cs@, dots@, 0);
        if found is None {
            assert forall|i: int| !crate::text::occurs_at(cs@, dots@, i) by {
                if i < 0 {
                    assert(!crate::text::occurs_at(cs@, dots@, i));
                }
            }
        }
    }
    found.is_none() && !has_char(&cs, '/') && !has_char(&cs, '\\')
}

/// The document service's default address.
pub const DEFAULT_DOCLING_URL: &'static str = "http://localhost:50060";

/// The address of an image the document service extracted:
/// `{service}/assets/{doc_hash}/{filename}`, the service address defaulting
/// to `DEFAULT_DOCLING_URL`.
pub fn docling_asset_url(service_url: Option<&str>, doc_hash: &str, filename: &str) -> (r: String)
    ensures
        r@ == match service_url {
            Some(u) => u@,
            None => DEFAULT_DOCLING_URL@,
        } + "/assets/"@ + doc_hash@ + "/"@ + filename@,
{
    let mut out = match service_url {
        Some(u) => chars_of(u),
        None => chars_of(DEFAULT_DOCLING_URL),
    };
    push_str(&mut out, "/assets/");
    push_str(&mut out, doc_hash);
    push_str(&mut out, "/");
    push_str(&mut out, filename);
    string_of(&out)
}

} // verus!
