//! What indexing a report PDF records, given its path and extracted text:
//! a placeholder for a scanned document without text, nothing when no chunk
//! comes out, or the document with its type, year and chunks.
use vstd::prelude::*;
use crate::report::{chunks_spec, doc_type_spec, first_year_from, infer_doc_type, infer_year, lowercase, split_into_chunks};
use crate::text::{chars_of, string_of, trim, trim_chars};

verus! {

/// The last component of a path as `std::path::Path::file_name` gives it
/// (`None` for a path ending in `..` or for the root).
pub uninterp spec fn path_file_name(path: Seq<char>) -> Option<Seq<char>>;

/// Reads the file name of a path with `Path::file_name` (a name that is not
/// valid UTF-8 counts as none). The component rules are named, not stated.
#[verifier::external_body]
fn file_name_of(path: &str) -> (r: Option<String>)
    ensures
        match r {
            Some(n) => path_file_name(path@) == Some(n@),
            None => path_file_name(path@) is None,
        },
{
    std::path::Path::new(path).file_name().and_then(|n| n.to_str()).map(|n| n.to_string())
}

/// The name a document is recorded under: its file name, or the whole path
/// when it has none.
pub open spec fn record_name(path: Seq<char>) -> Seq<char> {
    match path_file_name(path) {
        Some(n) => n,
        None => path,
    }
}

/// What indexing a document records.
pub enum IndexPlan {
    /// A document without extractable text: recorded with type `skip` and
    /// no chunks, so it is not retried.
    Skip { filename: String, year: Option<i64> },
    /// Text that yields no chunk: nothing is recorded.
    Nothing,
    /// The document with its type, year and chunks.
    Index { filename: String, doc_type: &'static str, year: Option<i64>, chunks: Vec<String> },
}

/// The plan for the document at `file_path` whose extracted text is `text`.
pub fn plan_index(file_path: &str, text: &str) -> (r: IndexPlan)
    ensures
        trim(text@).len() == 0 ==> (r matches IndexPlan::Skip { filename, year } && filename@ == record_name(
            file_path@,
        ) && match year {
            Some(y) => first_year_from(record_name(file_path@), 0) == Some(y as int),
            None => first_year_from(record_name(file_path@), 0) is None,
        }),
        trim(text@).len() > 0 && chunks_spec(text@).len() == 0 ==> r is Nothing,
        trim(text@).len() > 0 && chunks_spec(text@).len() > 0 ==> (r matches IndexPlan::Index {
            filename,
            doc_type,
            year,
            chunks,
        } && {
            &&& filename@ == record_name(file_path@)
            &&& doc_type@ == doc_type_spec(lowercase(record_name(file_path@)))
            &&& match year {
                Some(y) => first_year_from(record_name(file_path@), 0) == Some(y as int),
                None => first_year_from(record_name(file_path@), 0) is None,
            }
            &&& chunks@.len() == chunks_spec(text@).len()
            &&& forall|k: int| 0 <= k < chunks@.len() ==> #[trigger] chunks@[k]@ == chunks_spec(text@)[k]
        }),
{
    let filename = match file_name_of(file_path) {
        Some(n) => n,
        None => string_of(&chars_of(file_path)),
    };
    let year = infer_year(filename.as_str());
    if trim_chars(&chars_of(text)).len() == 0 {
        return IndexPlan::Skip { filename, year };
    }
    let chunks = split_into_chunks(text);
    if chunks.len() == 0 {
        return IndexPlan::Nothing;
    }
    let doc_type = infer_doc_type(filename.as_str());
    IndexPlan::Index { filename, doc_type, year, chunks }
}

} // verus!
