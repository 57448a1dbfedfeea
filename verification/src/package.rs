//! The package orchestrator.
//!
//! A [`Package`] owns the deck list and the media path list.  One write
//! operation resolves the effective timestamp, writes the relational snapshot
//! into a scratch store inside one transaction, then bundles the snapshot's
//! bytes, the media manifest, and the media payloads into one archive on the
//! caller's output target.  Reading media bytes from disk is the caller's
//! business: a write takes one byte payload per media path.

use vstd::prelude::*;

use crate::archive::{zip_bytes_of, Archive};
use crate::db;
use crate::deck::{lemma_total_ids_take_bound, lemma_total_ids_take_step, total_ids, Deck};
use crate::error::PkgError;
use crate::idgen::IdGenerator;
use crate::media::{
    base_name_spec, check_path_string, dec_rep, dec_string, entries_map, json_object_of,
    manifest_entries_spec, manifest_entry_views, manifest_json, media_manifest_entries,
    string_views, valid_path_string,
};
use vstd::string::StringSliceAdditionalSpecFns;
use vstd::utf8::encode_utf8;

verus! {

/// Relies on std::io::Write::write_all: sends the finished archive bytes to
/// the caller's output target.
#[verifier::external_body]
fn write_out<W: std::io::Write>(out: &mut W, bytes: &Vec<u8>) -> (r: Result<(), PkgError>)
    ensures
        r matches Err(e) ==> e is Io,
{
    std::io::Write::write_all(out, bytes).map_err(|e| PkgError::Io(e.to_string()))
}

/// Relies on std::time::SystemTime::now and duration_since: the wall clock's
/// milliseconds since the epoch, zero when the clock is unavailable (never a
/// panic).
#[verifier::external_body]
fn now_millis() -> u64 {
    match std::time::SystemTime::now().duration_since(std::time::UNIX_EPOCH) {
        Ok(d) => d.as_millis() as u64,
        Err(_) => 0,
    }
}

/// The externally supplied SQL run before any deck's rows.  This library does
/// not define the relational schema; it only promises to execute these
/// scripts first, in order, inside the same transaction as the rows.
pub struct DbScript {
    /// The fixed schema definition (table and index creation).
    pub schema_sql: String,
    /// The fixed default-collection insertion (one row of baseline metadata).
    pub collection_sql: String,
}

/// The manifest member's bytes for the given media paths: the UTF-8 encoding
/// of the JSON object mapping each slot key to its path's base name.
pub open spec fn manifest_bytes_of(paths: Seq<Seq<char>>) -> Seq<u8> {
    encode_utf8(json_object_of(entries_map(manifest_entries_spec(paths))))
}

/// The views of a list of media byte payloads.
pub open spec fn byte_views(s: Seq<Vec<u8>>) -> Seq<Seq<u8>> {
    s.map_values(|v: Vec<u8>| v@)
}

/// The exact member layout of a finished package archive: the relational
/// snapshot under its fixed name, the media manifest under its fixed name,
/// then one member per media slot, named by the slot's decimal string, in
/// slot order — N + 2 members for N media payloads.
pub open spec fn package_members(
    snapshot: Seq<u8>,
    manifest: Seq<u8>,
    media: Seq<Seq<u8>>,
) -> Seq<(Seq<char>, Seq<u8>)> {
    seq![("collection.anki2"@, snapshot), ("media"@, manifest)] + Seq::new(
        media.len(),
        |i: int| (dec_rep(i), media[i]),
    )
}

/// Assemble the archive for a completed snapshot: the snapshot member, the
/// manifest member, then one member per media slot in slot order.  The
/// resulting archive holds exactly [`package_members`]: N + 2 members for N
/// media payloads.
pub fn assemble_archive(snapshot: &Vec<u8>, manifest: &[u8], media: &Vec<Vec<u8>>) -> (r: Result<
    Archive,
    PkgError,
>)
    ensures
        r matches Ok(a) ==> a.members() == package_members(
            snapshot@,
            manifest@,
            byte_views(media@),
        ),
        r matches Err(e) ==> e is Archive || e is Io,
{
    let ghost expected = package_members(snapshot@, manifest@, byte_views(media@));
    let mut archive = Archive::new();
    archive.add_member("collection.anki2", snapshot.as_slice())?;
    archive.add_member("media", manifest)?;
    proof {
        assert(archive.members() =~= expected.take(2));
    }
    let mut i: usize = 0;
    while i < media.len()
        invariant
            i <= media@.len(),
            archive.members() == expected.take(2 + i as int),
            expected == package_members(snapshot@, manifest@, byte_views(media@)),
        decreases media@.len() - i,
    {
        let name = dec_string(i as u64);
        archive.add_member(name.as_str(), media[i].as_slice())?;
        proof {
            assert(archive.members() =~= expected.take(2 + (i + 1)));
        }
        i = i + 1;
    }
    proof {
        assert(archive.members() =~= expected);
    }
    Ok(archive)
}

/// A package: an ordered list of decks and an ordered list of media file
/// paths, consumed by the write operations.
pub struct Package {
    decks: Vec<Deck>,
    media_files: Vec<String>,
}

impl Package {
    /// The decks, in write order.
    pub closed spec fn decks(&self) -> Seq<Deck> {
        self.decks@
    }

    /// The media paths, in slot order.
    pub closed spec fn media_paths(&self) -> Seq<Seq<char>> {
        Seq::new(self.media_files@.len(), |i: int| self.media_files@[i]@)
    }

    /// Validity: every deck's identifier references are in range and every
    /// media path was accepted at construction.
    pub closed spec fn wf(&self) -> bool {
        &&& (forall|i: int| 0 <= i < self.decks@.len() ==> (#[trigger] self.decks@[i]).wf())
        &&& (forall|i: int|
            0 <= i < self.media_files@.len() ==> valid_path_string(
                (#[trigger] self.media_files@[i])@,
            ))
    }

    /// Every media path has an extractable base name.
    pub open spec fn all_media_names_ok(&self) -> bool {
        forall|i: int|
            0 <= i < self.media_paths().len() ==> base_name_spec(
                #[trigger] self.media_paths()[i],
            ) is Some
    }

    /// Create a package with `decks` and `media_files`.  Fails with
    /// [`PkgError::PathFormat`], before any I/O, exactly when some media path
    /// string cannot be a host file path (it is empty or holds a NUL).
    pub fn new(decks: Vec<Deck>, media_files: Vec<&str>) -> (r: Result<Package, PkgError>)
        requires
            forall|i: int| 0 <= i < decks@.len() ==> (#[trigger] decks@[i]).wf(),
        ensures
            r is Ok <==> (forall|i: int|
                0 <= i < media_files@.len() ==> valid_path_string((#[trigger] media_files@[i])@)),
            r matches Ok(p) ==> {
                &&& p.wf()
                &&& p.decks() == decks@
                &&& p.media_paths().len() == media_files@.len()
                &&& forall|i: int|
                    0 <= i < media_files@.len() ==> p.media_paths()[i] == (
                    #[trigger] media_files@[i])@
            },
            r matches Err(e) ==> e is PathFormat,
    {
        let mut paths: Vec<String> = Vec::new();
        let mut i: usize = 0;
        while i < media_files.len()
            invariant
                i <= media_files@.len(),
                paths@.len() == i,
                forall|j: int|
                    0 <= j < i ==> valid_path_string((#[trigger] media_files@[j])@),
                forall|j: int| 0 <= j < i ==> (#[trigger] paths@[j])@ == media_files@[j]@,
            decreases media_files@.len() - i,
        {
            let p: &str = media_files[i];
            if !check_path_string(p) {
                proof {
                    assert(!valid_path_string(media_files@[i as int]@));
                }
                return Err(PkgError::PathFormat);
            }
            paths.push(p.to_owned());
            i = i + 1;
        }
        let pkg = Package { decks, media_files: paths };
        proof {
            assert forall|j: int| 0 <= j < media_files@.len() implies pkg.media_paths()[j] == (
            #[trigger] media_files@[j])@ by {
                assert(pkg.media_paths()[j] == pkg.media_files@[j]@);
            }
        }
        Ok(pkg)
    }

    /// Write the package to `out` using the current wall-clock timestamp.
    /// `media` holds one byte payload per media path, in slot order.
    pub fn write_to<W: std::io::Write + std::io::Seek>(
        &self,
        out: W,
        script: &DbScript,
        media: &Vec<Vec<u8>>,
    ) -> (r: Result<(), PkgError>)
        requires
            self.wf(),
            media@.len() == self.media_paths().len(),
        ensures
            (r matches Err(e) && e is PathFormat) <==> !self.all_media_names_ok(),
    {
        let ts = now_millis();
        let bytes = self.build_with_timestamp(script, media, ts)?;
        let mut out = out;
        write_out(&mut out, &bytes)
    }

    /// Write the package to `out` using the given timestamp, in milliseconds
    /// since the epoch (the floor of seconds times 1000), for reproducible
    /// builds: the same decks, media, scripts and timestamp feed the store
    /// and the archive identically.
    pub fn write_to_timestamp<W: std::io::Write + std::io::Seek>(
        &self,
        out: W,
        script: &DbScript,
        media: &Vec<Vec<u8>>,
        ts_millis: u64,
    ) -> (r: Result<(), PkgError>)
        requires
            self.wf(),
            media@.len() == self.media_paths().len(),
        ensures
            (r matches Err(e) && e is PathFormat) <==> !self.all_media_names_ok(),
            self.all_media_names_ok() && ts_millis + total_ids(self.decks()) > i64::MAX
                ==> (r matches Err(e) && e is Database),
            r is Ok ==> ts_millis + total_ids(self.decks()) <= i64::MAX,
    {
        let bytes = self.build_with_timestamp(script, media, ts_millis)?;
        let mut out = out;
        write_out(&mut out, &bytes)
    }

    /// Build the package archive with the given timestamp, returning the
    /// complete container bytes: validate and build the manifest entries,
    /// bound the identifier budget, write and commit the snapshot inside one
    /// transaction, then assemble and finalize the archive.  On Ok the bytes
    /// are the archive of exactly the fixed member layout: some snapshot the
    /// store produced, this package's manifest, and the given payloads.
    pub fn build_with_timestamp(
        &self,
        script: &DbScript,
        media: &Vec<Vec<u8>>,
        ts_millis: u64,
    ) -> (r: Result<Vec<u8>, PkgError>)
        requires
            self.wf(),
            media@.len() == self.media_paths().len(),
        ensures
            (r matches Err(e) && e is PathFormat) <==> !self.all_media_names_ok(),
            self.all_media_names_ok() && ts_millis + total_ids(self.decks()) > i64::MAX
                ==> (r matches Err(e) && e is Database),
            r is Ok ==> ts_millis + total_ids(self.decks()) <= i64::MAX,
            r matches Ok(bytes) ==> exists|snapshot: Seq<u8>|
                bytes@ == zip_bytes_of(
                    #[trigger] package_members(
                        snapshot,
                        manifest_bytes_of(self.media_paths()),
                        byte_views(media@),
                    ),
                ),
    {
        let entries = match media_manifest_entries(&self.media_files) {
            Ok(entries) => {
                proof {
                    assert forall|i: int|
                        0 <= i < self.media_paths().len() implies base_name_spec(
                        #[trigger] self.media_paths()[i],
                    ) is Some by {
                        assert(self.media_paths()[i] == self.media_files@[i]@);
                        assert(base_name_spec(self.media_files@[i]@) is Some);
                    }
                }
                entries
            },
            Err(e) => {
                proof {
                    if self.all_media_names_ok() {
                        assert forall|i: int|
                            0 <= i < self.media_files@.len() implies base_name_spec((
                            #[trigger] self.media_files@[i])@) is Some by {
                            assert(self.media_paths()[i] == self.media_files@[i]@);
                        }
                    }
                }
                return Err(e);
            },
        };
        let mut total: u64 = 0;
        let mut d: usize = 0;
        while d < self.decks.len()
            invariant
                d <= self.decks@.len(),
                total == total_ids(self.decks@.take(d as int)),
                total <= i64::MAX as u64,
                self.all_media_names_ok(),
            decreases self.decks@.len() - d,
        {
            proof {
                lemma_total_ids_take_step(self.decks@, d as int);
            }
            let n: u64 = self.decks[d].ids_needed as u64;
            if n > (i64::MAX as u64) - total {
                proof {
                    lemma_total_ids_take_bound(self.decks@, d as int + 1);
                }
                return Err(PkgError::Database("identifier space exhausted".to_owned()));
            }
            total = total + n;
            d = d + 1;
        }
        proof {
            assert(self.decks@.take(self.decks@.len() as int) =~= self.decks@);
        }
        if ts_millis > (i64::MAX as u64) - total {
            return Err(PkgError::Database("identifier space exhausted".to_owned()));
        }

        let tmp = db::temp_file_new()?;
        let mut conn = db::open_db(&tmp)?;
        let mut tx = db::begin_tx(&mut conn)?;
        let mut gen = IdGenerator::new(ts_millis);
        db::write_snapshot(
            &mut tx,
            script.schema_sql.as_str(),
            script.collection_sql.as_str(),
            &self.decks,
            &mut gen,
        )?;
        db::commit_tx(tx)?;
        db::close_db(conn)?;
        let snapshot = db::temp_read_all(&tmp)?;

        let json = manifest_json(&entries)?;
        let json_bytes: &[u8] = json.as_str().as_bytes();
        proof {
            assert(string_views(self.media_files@) =~= self.media_paths());
            assert(manifest_entry_views(entries@) == manifest_entries_spec(self.media_paths()));
            assert(json_bytes@ == manifest_bytes_of(self.media_paths()));
        }
        let archive = assemble_archive(&snapshot, json_bytes, media)?;
        let bytes = archive.finish()?;
        proof {
            assert(bytes@ == zip_bytes_of(
                package_members(
                    snapshot@,
                    manifest_bytes_of(self.media_paths()),
                    byte_views(media@),
                ),
            ));
        }
        Ok(bytes)
    }
}

} // verus!
