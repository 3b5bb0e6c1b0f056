//! The entries of the game's zip archives, had through the `zip` crate.
use vstd::prelude::*;
use std::io::Read;

verus! {

/// How many entries `zip::ZipArchive::new` finds in `archive`; `None` when it refuses
/// the archive.
pub uninterp spec fn zip_entry_count(archive: Seq<u8>) -> Option<usize>;

/// The name of entry `i` of `archive`, as `zip::read::ZipFile::name` gives it; `None`
/// when the archive or `by_index(i)` is refused.
pub uninterp spec fn zip_entry_name(archive: Seq<u8>, i: int) -> Option<Seq<char>>;

/// The unpacked contents of entry `i` of `archive`, as `read_to_end` on the entry gives
/// them; `None` when the archive, `by_index(i)` or the read is refused.
pub uninterp spec fn zip_entry_bytes(archive: Seq<u8>, i: int) -> Option<Seq<u8>>;

/// Opens `archive` with `zip::ZipArchive::new` and gives `len()`. The result is named
/// [`zip_entry_count`]: a function of the bytes alone. Nothing is required of
/// `archive`: the `zip` crate reports a malformed archive as an error, and its source
/// here shows no input on which these calls panic; that none does is not shown either.
#[verifier::external_body]
pub(crate) fn zip_count(archive: &[u8]) -> (r: Option<usize>)
    ensures
        r == zip_entry_count(archive@),
{
    match zip::ZipArchive::new(std::io::Cursor::new(archive)) {
        Ok(a) => Some(a.len()),
        Err(_) => None,
    }
}

/// Opens `archive`, takes entry `i` with `by_index` and gives its `name()`. The result
/// is named [`zip_entry_name`]; as for [`zip_count`], nothing is required of the input.
#[verifier::external_body]
pub(crate) fn zip_name(archive: &[u8], i: usize) -> (r: Option<String>)
    ensures
        match zip_entry_name(archive@, i as int) {
            Some(s) => r matches Some(x) && x@ == s,
            None => r is None,
        },
{
    match zip::ZipArchive::new(std::io::Cursor::new(archive)) {
        Ok(mut a) => match a.by_index(i) {
            Ok(f) => Some(f.name().to_string()),
            Err(_) => None,
        },
        Err(_) => None,
    }
}

/// Opens `archive`, takes entry `i` with `by_index` and unpacks it with `read_to_end`.
/// The result is named [`zip_entry_bytes`]; as for [`zip_count`], nothing is required of
/// the input.
#[verifier::external_body]
pub(crate) fn zip_bytes(archive: &[u8], i: usize) -> (r: Option<Vec<u8>>)
    ensures
        match zip_entry_bytes(archive@, i as int) {
            Some(b) => r matches Some(v) && v@ == b,
            None => r is None,
        },
{
    match zip::ZipArchive::new(std::io::Cursor::new(archive)) {
        Ok(mut a) => match a.by_index(i) {
            Ok(mut f) => {
                let mut v = Vec::new();
                match f.read_to_end(&mut v) {
                    Ok(_) => Some(v),
                    Err(_) => None,
                }
            },
            Err(_) => None,
        },
        Err(_) => None,
    }
}

#[verifier::external_type_specification]
#[verifier::external_body]
#[verifier::reject_recursive_types(T)]
pub struct ExCursor<T>(std::io::Cursor<T>);

#[verifier::external_type_specification]
#[verifier::external_body]
#[verifier::reject_recursive_types(R)]
pub struct ExZipArchive<R>(zip::ZipArchive<R>);

/// The bytes that an opened archive reads its entries from.
pub uninterp spec fn archive_source(a: zip::ZipArchive<std::io::Cursor<Vec<u8>>>) -> Seq<u8>;

/// What `by_name(name)` and `read_to_end` give for the entry named `name` of `archive`:
/// `None` when `by_name` refuses it (no such entry among them); `Some(None)` when the
/// read fails; else the unpacked contents.
pub uninterp spec fn zip_named_entry(archive: Seq<u8>, name: Seq<char>) -> Option<Option<Seq<u8>>>;

/// Opens `archive` with `zip::ZipArchive::new`: `None` exactly when [`zip_count`] is
/// `None` on the same bytes, else an archive that reads from them. As for [`zip_count`],
/// nothing is required of the input.
#[verifier::external_body]
fn zip_open(archive: Vec<u8>) -> (r: Option<zip::ZipArchive<std::io::Cursor<Vec<u8>>>>)
    ensures
        r is None <==> zip_entry_count(archive@) is None,
        r matches Some(a) ==> archive_source(a) == archive@,
{
    zip::ZipArchive::new(std::io::Cursor::new(archive)).ok()
}

/// Takes the entry named `name` with `by_name` and unpacks it with `read_to_end` (see
/// [`zip_named_entry`]). The archive still reads from the same bytes afterwards.
#[verifier::external_body]
fn zip_read_named(a: &mut zip::ZipArchive<std::io::Cursor<Vec<u8>>>, name: &str) -> (r: Option<Option<Vec<u8>>>)
    ensures
        archive_source(*final(a)) == archive_source(*old(a)),
        match zip_named_entry(archive_source(*old(a)), name@) {
            None => r is None,
            Some(None) => r matches Some(None),
            Some(Some(b)) => r matches Some(Some(v)) && v@ == b,
        },
{
    match a.by_name(name) {
        Ok(mut f) => {
            let mut v = Vec::new();
            match f.read_to_end(&mut v) {
                Ok(_) => Some(Some(v)),
                Err(_) => Some(None),
            }
        },
        Err(_) => None,
    }
}

/// An opened zip archive of the game's assets, whose entries are found by name.
pub struct AssetArchive {
    archive: zip::ZipArchive<std::io::Cursor<Vec<u8>>>,
}

impl AssetArchive {
    /// The bytes of the archive.
    pub closed spec fn source(&self) -> Seq<u8> {
        archive_source(self.archive)
    }

    /// Opens the archive `bytes`; `None` when the `zip` crate refuses it (see
    /// [`zip_entry_count`]).
    pub fn open(bytes: Vec<u8>) -> (r: Option<AssetArchive>)
        ensures
            r is None <==> zip_entry_count(bytes@) is None,
            r matches Some(a) ==> a.source() == bytes@,
    {
        match zip_open(bytes) {
            Some(archive) => Some(AssetArchive { archive }),
            None => None,
        }
    }

    /// The unpacked entry named `name`: `None` when the archive has no entry it can give
    /// by that name, `Some(None)` when the entry does not unpack (see
    /// [`zip_named_entry`]).
    pub fn entry(&mut self, name: &str) -> (r: Option<Option<Vec<u8>>>)
        ensures
            final(self).source() == old(self).source(),
            match zip_named_entry(old(self).source(), name@) {
                None => r is None,
                Some(None) => r matches Some(None),
                Some(Some(b)) => r matches Some(Some(v)) && v@ == b,
            },
    {
        zip_read_named(&mut self.archive, name)
    }
}

} // verus!
