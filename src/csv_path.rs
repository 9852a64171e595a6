//! Which paths the importer accepts: an existing regular file whose extension
//! is `csv` in any case.
use vstd::prelude::*;
use crate::text::{ascii_without_upper, lower_of, to_lower};

verus! {

/// What the file system reports of a path.
#[derive(Debug, Clone, Copy, PartialEq, Eq, Structural)]
pub enum PathKind {
    /// Nothing exists at the path.
    Missing,
    /// Something exists there, but not a regular file.
    NotFile,
    /// A regular file exists there.
    File,
}

/// Why a path is refused for import.
#[derive(Debug, Clone, Copy, PartialEq, Eq, Structural)]
pub enum CsvPathError {
    NotFound,
    NotAFile,
    WrongExtension,
}

/// What `std::path::Path::extension` finds in a path: the part of its last
/// component after the final dot, if any.
pub uninterp spec fn extension_of(p: Seq<char>) -> Option<Seq<char>>;

/// `c` separates components or ends a drive prefix on some platform: `/`
/// everywhere, backslash and `:` on Windows.
pub open spec fn is_path_mark(c: char) -> bool {
    c == '/' || c == '\\' || c == ':'
}

/// From `k` on, `p` is one non-empty component on every platform, without a
/// dot.
pub open spec fn dotless_tail(p: Seq<char>, k: int) -> bool {
    &&& 0 <= k < p.len()
    &&& k == 0 || p[k - 1] == '/'
    &&& forall|j: int| k <= j < p.len() ==> !is_path_mark(#[trigger] p[j]) && p[j] != '.'
}

/// The last component of `p` is not empty and holds no dot.
pub open spec fn dotless_last_component(p: Seq<char>) -> bool {
    exists|k: int| #[trigger] dotless_tail(p, k)
}

/// `p` is a single component other than `..` on every platform: it holds no
/// separator and no drive prefix.
pub open spec fn plain_name(p: Seq<char>) -> bool {
    &&& forall|j: int| 0 <= j < p.len() ==> !is_path_mark(#[trigger] p[j])
    &&& p != ".."@
}

/// `i` is the position of the last dot of `p`, and not its first character.
pub open spec fn is_last_dot(p: Seq<char>, i: int) -> bool {
    &&& 0 < i < p.len()
    &&& p[i] == '.'
    &&& forall|j: int| i < j < p.len() ==> p[j] != '.'
}

/// Relies on `std::path::Path::extension`: no extension where the file name
/// holds no dot; otherwise, for a name not starting with its only dot, what
/// follows its last dot.
#[verifier::external_body]
fn path_extension(p: &str) -> (r: Option<String>)
    ensures
        match r {
            Some(e) => extension_of(p@) == Some(e@),
            None => extension_of(p@) is None,
        },
        dotless_last_component(p@) ==> r is None,
        forall|i: int|
            plain_name(p@) && #[trigger] is_last_dot(p@, i) ==> r is Some && r->0@ == p@.subrange(
                i + 1,
                p@.len() as int,
            ),
{
    std::path::Path::new(p).extension().map(|e| e.to_string_lossy().into_owned())
}

/// Whether a path with this extension may be imported.
pub open spec fn csv_extension(ext: Option<Seq<char>>) -> bool {
    ext is Some && lower_of(ext->0) == "csv"@
}

/// What `validate_csv_path` decides for a path and what the file system reports of it.
pub open spec fn csv_path_verdict(p: Seq<char>, kind: PathKind) -> Result<(), CsvPathError> {
    match kind {
        PathKind::Missing => Err(CsvPathError::NotFound),
        PathKind::NotFile => Err(CsvPathError::NotAFile),
        PathKind::File => if csv_extension(extension_of(p)) {
            Ok(())
        } else {
            Err(CsvPathError::WrongExtension)
        },
    }
}

/// Decides whether `file_path`, of which the file system reports `kind`, may
/// be imported: it must be an existing regular file with a `csv` extension in
/// any case.
pub fn validate_csv_path(file_path: &str, kind: PathKind) -> (r: Result<(), CsvPathError>)
    ensures
        r == csv_path_verdict(file_path@, kind),
        kind == PathKind::File && dotless_last_component(file_path@) ==> r == Err::<
            (),
            CsvPathError,
        >(CsvPathError::WrongExtension),
        forall|i: int|
            kind == PathKind::File && plain_name(file_path@) && #[trigger] is_last_dot(
                file_path@,
                i,
            ) && ascii_without_upper(file_path@.subrange(i + 1, file_path@.len() as int)) ==> (r
                is Ok <==> file_path@.subrange(i + 1, file_path@.len() as int) == "csv"@),
{
    match kind {
        PathKind::Missing => Err(CsvPathError::NotFound),
        PathKind::NotFile => Err(CsvPathError::NotAFile),
        PathKind::File => {
            match path_extension(file_path) {
                Some(ext) => {
                    let lowered = to_lower(ext.as_str());
                    let csv = "csv".to_owned();
                    if lowered == csv {
                        Ok(())
                    } else {
                        Err(CsvPathError::WrongExtension)
                    }
                },
                None => Err(CsvPathError::WrongExtension),
            }
        },
    }
}

} // verus!
