use vstd::prelude::*;
use std::io::Read;
use crate::markup::string_seq_view;

verus! {

/// What the `zip` crate lists as the names of the entries of the archive
/// held in `bytes`, in the order of its central directory, or none when the
/// bytes are not a readable archive.
pub uninterp spec fn zip_names_of(bytes: Seq<u8>) -> Option<Seq<Seq<char>>>;

/// The names of the entries of the ZIP archive held in `bytes`.
/// Trusted: `zip::ZipArchive::new` over the bytes and
/// `ZipArchive::file_names_raw`, each raw name converted to a `String`
/// (lossily, where it is not UTF-8). The result is the name `zip_names_of`
/// applied to the bytes.
#[verifier::external_body]
pub fn zip_entry_names(bytes: &[u8]) -> (r: Option<Vec<String>>)
    ensures
        match r {
            Some(v) => zip_names_of(bytes@) == Some(string_seq_view(v@)),
            None => zip_names_of(bytes@) is None,
        },
{
    match zip::ZipArchive::new(std::io::Cursor::new(bytes)) {
        Ok(archive) => Some(
            archive.file_names_raw().map(|raw| String::from_utf8_lossy(raw).into_owned()).collect(),
        ),
        Err(_) => None,
    }
}

/// What the `zip` crate gives as the text of the entry `name` of the archive
/// held in `bytes`, or none when there is no such entry or it cannot be read
/// as UTF-8 text.
pub uninterp spec fn zip_text_of(bytes: Seq<u8>, name: Seq<char>) -> Option<Seq<char>>;

/// The text of the entry `name` of the ZIP archive held in `bytes`.
/// Trusted: `zip::ZipArchive::new`, `ZipArchive::by_name` and
/// `Read::read_to_string` on the entry. The result is the name `zip_text_of`
/// applied to the bytes and the name.
#[verifier::external_body]
pub fn zip_entry_text(bytes: &[u8], name: &str) -> (r: Option<String>)
    ensures
        match r {
            Some(s) => zip_text_of(bytes@, name@) == Some(s@),
            None => zip_text_of(bytes@, name@) is None,
        },
{
    let mut archive = zip::ZipArchive::new(std::io::Cursor::new(bytes)).ok()?;
    let mut entry = archive.by_name(name).ok()?;
    let mut text = String::new();
    entry.read_to_string(&mut text).ok()?;
    Some(text)
}

/// What the `cfb` crate reads as the contents of the stream at `path` of
/// the OLE compound file held in `bytes`, or none when the bytes are not a
/// readable compound file or it has no such stream.
pub uninterp spec fn compound_stream_of(bytes: Seq<u8>, path: Seq<char>) -> Option<Seq<u8>>;

/// The contents of the stream at `path` of the OLE compound file (the
/// container of a legacy `.doc` file) held in `bytes`.
/// Trusted: `cfb::CompoundFile::open` over the bytes,
/// `CompoundFile::open_stream` and `Read::read_to_end` on the stream, any
/// error of theirs giving `None`. The result is the name
/// `compound_stream_of` applied to the bytes and the path.
#[verifier::external_body]
pub fn compound_stream(bytes: &[u8], path: &str) -> (r: Option<Vec<u8>>)
    ensures
        match r {
            Some(v) => compound_stream_of(bytes@, path@) == Some(v@),
            None => compound_stream_of(bytes@, path@) is None,
        },
{
    let mut file = cfb::CompoundFile::open(std::io::Cursor::new(bytes)).ok()?;
    let mut stream = file.open_stream(path).ok()?;
    let mut contents: Vec<u8> = Vec::new();
    stream.read_to_end(&mut contents).ok()?;
    Some(contents)
}

} // verus!
