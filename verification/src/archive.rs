//! The archive being written: named byte members in a fixed order.
//!
//! [`Archive`] pairs the zip crate's writer with a ghost record of the
//! members added so far, so verified code can pin down exactly which members
//! an archive receives and in which order.  The byte-level container encoding
//! is the zip crate's work, reached only through the trusted items below.

use vstd::prelude::*;

use crate::error::PkgError;

verus! {

/// The container bytes of a finished archive holding the given members, as
/// the zip crate writes them with this crate's fixed options (deflate, the
/// fixed default member timestamp): a function of the member list alone.
pub uninterp spec fn zip_bytes_of(members: Seq<(Seq<char>, Seq<u8>)>) -> Seq<u8>;

/// The zip writer over an in-memory buffer.  It sits in an opaque struct
/// because declaring the writer's type to the verifier is refused: the
/// declaration would have to repeat the writer's own generics, whose bounds
/// are io traits the verifier has no declaration for.
#[verifier::external_body]
struct ZipSink {
    inner: zip::write::ZipWriter<std::io::Cursor<Vec<u8>>>,
}

/// An archive under construction in memory, with the ghost sequence of
/// (member name, member bytes) written so far.
pub struct Archive {
    sink: ZipSink,
    members: Ghost<Seq<(Seq<char>, Seq<u8>)>>,
}

impl Archive {
    /// The members added so far, in order: name and raw (uncompressed) bytes.
    pub closed spec fn members(&self) -> Seq<(Seq<char>, Seq<u8>)> {
        self.members@
    }

    /// Relies on zip::write::ZipWriter::new: an empty archive over a fresh
    /// in-memory buffer.
    #[verifier::external_body]
    pub fn new() -> (a: Archive)
        ensures
            a.members() == Seq::<(Seq<char>, Seq<u8>)>::empty(),
    {
        Archive {
            sink: ZipSink { inner: zip::write::ZipWriter::new(std::io::Cursor::new(Vec::new())) },
            members: Ghost(Seq::empty()),
        }
    }

    /// Relies on zip::write::ZipWriter::start_file: begins a new, empty
    /// member under the given name, with the default options (deflate, fixed
    /// 1980 timestamp, so equal members give equal container bytes).
    #[verifier::external_body]
    fn start_member(&mut self, name: &str) -> (r: Result<(), PkgError>)
        ensures
            r is Ok ==> final(self).members() == old(self).members().push(
                (name@, Seq::<u8>::empty()),
            ),
            r matches Err(e) ==> e is Archive,
    {
        self.sink.inner.start_file(name, zip::write::SimpleFileOptions::default()).map_err(
            |e| PkgError::Archive(e.to_string()),
        )
    }

    /// Relies on the Write impl of zip::write::ZipWriter: appends bytes to
    /// the member currently being written.
    #[verifier::external_body]
    fn append(&mut self, bytes: &[u8]) -> (r: Result<(), PkgError>)
        requires
            old(self).members().len() > 0,
        ensures
            r is Ok ==> final(self).members() == old(self).members().update(
                old(self).members().len() - 1,
                (old(self).members().last().0, old(self).members().last().1 + bytes@),
            ),
            r matches Err(e) ==> e is Io,
    {
        std::io::Write::write_all(&mut self.sink.inner, bytes).map_err(|e| PkgError::Io(e.to_string()))
    }

    /// Add one complete member: `bytes` under `name`.
    pub fn add_member(&mut self, name: &str, bytes: &[u8]) -> (r: Result<(), PkgError>)
        ensures
            r is Ok ==> final(self).members() == old(self).members().push((name@, bytes@)),
            r matches Err(e) ==> e is Archive || e is Io,
    {
        self.start_member(name)?;
        match self.append(bytes) {
            Ok(()) => {
                proof {
                    assert(self.members() =~= old(self).members().push((name@, bytes@)));
                }
                Ok(())
            },
            Err(e) => Err(e),
        }
    }

    /// Relies on zip::write::ZipWriter::finish: writes the archive trailer
    /// and hands back the complete container bytes.  Only what this returns
    /// under Ok is a complete archive; a partially written buffer must not be
    /// treated as one.
    #[verifier::external_body]
    pub fn finish(self) -> (r: Result<Vec<u8>, PkgError>)
        ensures
            r matches Ok(bytes) ==> bytes@ == zip_bytes_of(self.members()),
            r matches Err(e) ==> e is Archive,
    {
        match self.sink.inner.finish() {
            Ok(cursor) => Ok(cursor.into_inner()),
            Err(e) => Err(PkgError::Archive(e.to_string())),
        }
    }
}

} // verus!
