//! The relational snapshot: an embedded store written in one transaction.
//!
//! The verified code here decides what is executed and in which order: the
//! externally supplied schema and default-collection scripts first, then each
//! deck's rows in list order, every fresh key drawn from the build's shared
//! identifier generator.  [`DbTransaction`] pairs the store's transaction
//! with a ghost record of the steps it has completed, so the contract of
//! [`write_snapshot`] pins the exact statement sequence the store receives.
//! The store itself is the rusqlite crate's work, reached only through the
//! trusted items below.

use vstd::prelude::*;

use crate::deck::{
    lemma_total_ids_nonneg, lemma_total_ids_take_bound, lemma_total_ids_take_step, resolve_params,
    total_ids, Deck, RowParam, SqlValue,
};
use crate::deck::resolve_param_spec;
use crate::error::PkgError;
use crate::idgen::IdGenerator;

verus! {

#[verifier::external_type_specification]
#[verifier::external_body]
pub struct ExConnection(rusqlite::Connection);

#[verifier::external_type_specification]
#[verifier::external_body]
pub struct ExTransaction<'conn>(rusqlite::Transaction<'conn>);

/// One step the store has completed inside the transaction.
pub enum DbStep {
    /// A multi-statement SQL script, run as one batch.
    Batch(Seq<char>),
    /// One parameterized statement with its resolved values, in order.
    Row(Seq<char>, Seq<SqlValue>),
}

/// An open transaction on the embedded store, with the ghost sequence of
/// steps the store has completed through it.  A step is recorded only when
/// its call returned Ok (a failed batch may have run a prefix of its own
/// statements, but an error always aborts the build before commit, so the
/// store file is discarded).  If the transaction is dropped without
/// [`commit_tx`], everything rolls back.
pub struct DbTransaction<'conn> {
    inner: rusqlite::Transaction<'conn>,
    executed: Ghost<Seq<DbStep>>,
}

impl<'conn> DbTransaction<'conn> {
    /// The steps the store has completed through this transaction, in order.
    pub closed spec fn executed(&self) -> Seq<DbStep> {
        self.executed@
    }
}

/// The scratch file the snapshot is written to.  The tempfile handle sits in
/// an opaque struct because Verus has no declaration for its type, whose
/// default type parameter is the std file handle.
#[verifier::external_body]
pub(crate) struct ScratchFile {
    inner: tempfile::NamedTempFile,
}

/// Relies on tempfile::NamedTempFile::new: a fresh scratch file in the
/// system's temporary directory, deleted when the handle is dropped, on every
/// exit path.
#[verifier::external_body]
pub(crate) fn temp_file_new() -> (r: Result<ScratchFile, PkgError>)
    ensures
        r matches Err(e) ==> e is Io,
{
    match tempfile::NamedTempFile::new() {
        Ok(f) => Ok(ScratchFile { inner: f }),
        Err(e) => Err(PkgError::Io(e.to_string())),
    }
}

/// Relies on the Read impl of tempfile::NamedTempFile: yields the scratch
/// file's full contents (the handle's cursor has never been moved).
#[verifier::external_body]
pub(crate) fn temp_read_all(file: &ScratchFile) -> (r: Result<Vec<u8>, PkgError>)
    ensures
        r matches Err(e) ==> e is Io,
{
    let mut reader: &tempfile::NamedTempFile = &file.inner;
    let mut buf: Vec<u8> = Vec::new();
    match std::io::Read::read_to_end(&mut reader, &mut buf) {
        Ok(_) => Ok(buf),
        Err(e) => Err(PkgError::Io(e.to_string())),
    }
}

/// Relies on rusqlite::Connection::open: opens (here: creates) the embedded
/// store at the scratch file's path.
#[verifier::external_body]
pub(crate) fn open_db(file: &ScratchFile) -> (r: Result<rusqlite::Connection, PkgError>)
    ensures
        r matches Err(e) ==> e is Database,
{
    rusqlite::Connection::open(file.inner.path()).map_err(|e| PkgError::Database(e.to_string()))
}

/// Relies on rusqlite::Connection::transaction: begins one transaction with
/// nothing executed yet; what runs through it becomes visible only on commit,
/// and is rolled back when the handle is dropped uncommitted.
#[verifier::external_body]
pub(crate) fn begin_tx<'c>(conn: &'c mut rusqlite::Connection) -> (r: Result<
    DbTransaction<'c>,
    PkgError,
>)
    ensures
        r matches Ok(tx) ==> tx.executed() == Seq::<DbStep>::empty(),
        r matches Err(e) ==> e is Database,
{
    match conn.transaction() {
        Ok(t) => Ok(DbTransaction { inner: t, executed: Ghost(Seq::empty()) }),
        Err(e) => Err(PkgError::Database(e.to_string())),
    }
}

/// Relies on rusqlite::Connection::execute_batch (reached through the
/// transaction): runs a multi-statement SQL script inside the transaction; on
/// Ok the whole script has run.
#[verifier::external_body]
pub(crate) fn exec_batch<'c>(tx: &mut DbTransaction<'c>, sql: &str) -> (r: Result<(), PkgError>)
    ensures
        r is Ok ==> final(tx).executed() == old(tx).executed().push(DbStep::Batch(sql@)),
        !(r is Ok) ==> final(tx).executed() == old(tx).executed(),
        r matches Err(e) ==> e is Database,
{
    tx.inner.execute_batch(sql).map_err(|e| PkgError::Database(e.to_string()))
}

/// Relies on rusqlite::Connection::execute with rusqlite::params_from_iter:
/// runs one parameterized statement inside the transaction, binding the given
/// values in order; on Ok the statement has run.
#[verifier::external_body]
pub(crate) fn exec_stmt<'c>(
    tx: &mut DbTransaction<'c>,
    sql: &str,
    values: &Vec<SqlValue>,
) -> (r: Result<(), PkgError>)
    ensures
        r is Ok ==> final(tx).executed() == old(tx).executed().push(DbStep::Row(sql@, values@)),
        !(r is Ok) ==> final(tx).executed() == old(tx).executed(),
        r matches Err(e) ==> e is Database,
{
    let mut vals: Vec<rusqlite::types::Value> = Vec::new();
    for v in values.iter() {
        vals.push(match v {
            SqlValue::Int(i) => rusqlite::types::Value::Integer(*i),
            SqlValue::Text(s) => rusqlite::types::Value::Text(s.clone()),
        });
    }
    match tx.inner.execute(sql, rusqlite::params_from_iter(vals)) {
        Ok(_) => Ok(()),
        Err(e) => Err(PkgError::Database(e.to_string())),
    }
}

/// Relies on rusqlite::Transaction::commit: makes the whole transaction
/// visible; nothing of it is visible if this is never reached.
#[verifier::external_body]
pub(crate) fn commit_tx<'c>(tx: DbTransaction<'c>) -> (r: Result<(), PkgError>)
    ensures
        r matches Err(e) ==> e is Database,
{
    tx.inner.commit().map_err(|e| PkgError::Database(e.to_string()))
}

/// Relies on rusqlite::Connection::close: flushes and closes the store file.
#[verifier::external_body]
pub(crate) fn close_db(conn: rusqlite::Connection) -> (r: Result<(), PkgError>)
    ensures
        r matches Err(e) ==> e is Database,
{
    conn.close().map_err(|(_, e)| PkgError::Database(e.to_string()))
}

/// The identifier block starting at `first`, of length `n`.
pub open spec fn block_ids(first: int, n: nat) -> Seq<u64> {
    Seq::new(n, |i: int| (first + i) as u64)
}

/// One row's parameters resolved against the owning deck's identifiers.
pub open spec fn resolved_row(params: Seq<RowParam>, ids: Seq<u64>) -> Seq<SqlValue> {
    Seq::new(params.len(), |j: int| resolve_param_spec(params[j], ids))
}

/// The steps one deck contributes, given its drawn identifiers.
pub open spec fn deck_steps(d: Deck, ids: Seq<u64>) -> Seq<DbStep> {
    Seq::new(
        d.rows@.len(),
        |i: int| DbStep::Row(d.rows@[i].sql@, resolved_row(d.rows@[i].params@, ids)),
    )
}

/// The steps a list of decks contributes, in list order, with each deck's
/// identifier block starting where the previous deck's ended.
pub open spec fn decks_steps(decks: Seq<Deck>, first: int) -> Seq<DbStep>
    decreases decks.len(),
{
    if decks.len() == 0 {
        Seq::empty()
    } else {
        decks_steps(decks.drop_last(), first) + deck_steps(
            decks.last(),
            block_ids(first + total_ids(decks.drop_last()), decks.last().ids_needed as nat),
        )
    }
}

/// The full statement sequence of one snapshot build: the schema script, the
/// default-collection script, then every deck's rows in order, with fresh
/// identifiers drawn consecutively from `first`.
pub open spec fn snapshot_plan(
    schema: Seq<char>,
    collection: Seq<char>,
    decks: Seq<Deck>,
    first: int,
) -> Seq<DbStep> {
    seq![DbStep::Batch(schema), DbStep::Batch(collection)] + decks_steps(decks, first)
}

/// One more deck appends exactly its own steps, over its own identifier
/// block.
proof fn lemma_decks_steps_take_step(s: Seq<Deck>, d: int, first: int)
    requires
        0 <= d < s.len(),
    ensures
        decks_steps(s.take(d + 1), first) == decks_steps(s.take(d), first) + deck_steps(
            s[d],
            block_ids(first + total_ids(s.take(d)), s[d].ids_needed as nat),
        ),
{
    assert(s.take(d + 1).drop_last() =~= s.take(d));
    assert(s.take(d + 1).last() == s[d]);
}

/// The steps of a deck-list prefix are a prefix of the whole list's steps.
proof fn lemma_decks_steps_take_prefix(s: Seq<Deck>, d: int, first: int)
    requires
        0 <= d <= s.len(),
    ensures
        decks_steps(s.take(d), first).is_prefix_of(decks_steps(s, first)),
    decreases s.len() - d,
{
    if d == s.len() {
        assert(s.take(d) =~= s);
        assert(decks_steps(s.take(d), first).is_prefix_of(decks_steps(s, first)));
    } else {
        lemma_decks_steps_take_step(s, d, first);
        lemma_decks_steps_take_prefix(s, d + 1, first);
        let a = decks_steps(s.take(d), first);
        let b = decks_steps(s.take(d + 1), first);
        let c = decks_steps(s, first);
        assert(a.is_prefix_of(b));
        assert(a =~= c.subrange(0, a.len() as int));
    }
}

/// Write the full relational snapshot into the open transaction.  On Ok the
/// store has completed exactly [`snapshot_plan`]: the schema script, the
/// default-collection script, then each deck's rows in list order, every
/// fresh key drawn from `gen`.  On an error the store has completed a prefix
/// of that plan — no later deck's rows run — and the caller never commits.
#[verifier::loop_isolation(false)]
pub(crate) fn write_snapshot<'c>(
    tx: &mut DbTransaction<'c>,
    schema_sql: &str,
    collection_sql: &str,
    decks: &Vec<Deck>,
    gen: &mut IdGenerator,
) -> (r: Result<(), PkgError>)
    requires
        forall|i: int| 0 <= i < decks@.len() ==> (#[trigger] decks@[i]).wf(),
        old(gen).wf(),
        old(gen).next_value() + total_ids(decks@) <= i64::MAX,
    ensures
        final(gen).wf(),
        final(gen).seed() == old(gen).seed(),
        r is Ok ==> final(gen).next_value() == old(gen).next_value() + total_ids(decks@),
        r is Ok ==> final(tx).executed() == old(tx).executed() + snapshot_plan(
            schema_sql@,
            collection_sql@,
            decks@,
            old(gen).next_value() as int,
        ),
        !(r is Ok) ==> exists|p: Seq<DbStep>|
            final(tx).executed() == old(tx).executed() + p && #[trigger] p.is_prefix_of(
                snapshot_plan(
                    schema_sql@,
                    collection_sql@,
                    decks@,
                    old(gen).next_value() as int,
                ),
            ),
        r matches Err(e) ==> e is Database,
{
    let ghost first = old(gen).next_value() as int;
    let ghost plan = snapshot_plan(schema_sql@, collection_sql@, decks@, first);
    let ghost scripts = seq![DbStep::Batch(schema_sql@), DbStep::Batch(collection_sql@)];
    match exec_batch(tx, schema_sql) {
        Ok(()) => {},
        Err(e) => {
            proof {
                let p = Seq::<DbStep>::empty();
                assert(tx.executed() =~= old(tx).executed() + p);
                assert(p.is_prefix_of(plan));
            }
            return Err(e);
        },
    }
    match exec_batch(tx, collection_sql) {
        Ok(()) => {},
        Err(e) => {
            proof {
                let p = seq![DbStep::Batch(schema_sql@)];
                assert(tx.executed() =~= old(tx).executed() + p);
                assert(p =~= plan.subrange(0, 1));
                assert(p.is_prefix_of(plan));
            }
            return Err(e);
        },
    }
    proof {
        assert(tx.executed() =~= old(tx).executed() + scripts + decks_steps(
            decks@.take(0),
            first,
        ));
    }
    let mut d: usize = 0;
    while d < decks.len()
        invariant
            d <= decks@.len(),
            gen.wf(),
            gen.seed() == old(gen).seed(),
            gen.next_value() == old(gen).next_value() + total_ids(decks@.take(d as int)),
            tx.executed() == old(tx).executed() + scripts + decks_steps(
                decks@.take(d as int),
                first,
            ),
        decreases decks@.len() - d,
    {
        let deck = &decks[d];
        proof {
            lemma_total_ids_take_step(decks@, d as int);
            lemma_total_ids_take_bound(decks@, d + 1);
            lemma_total_ids_nonneg(decks@.take(d as int));
        }
        let ids = gen.draw_block(deck.ids_needed);
        let ghost deck_part = deck_steps(*deck, ids@);
        proof {
            assert(ids@ =~= block_ids(first + total_ids(decks@.take(d as int)), deck.ids_needed as nat));
            lemma_decks_steps_take_step(decks@, d as int, first);
        }
        let mut rr: usize = 0;
        while rr < deck.rows.len()
            invariant
                rr <= deck.rows@.len(),
                tx.executed() == old(tx).executed() + scripts + decks_steps(
                    decks@.take(d as int),
                    first,
                ) + deck_part.take(rr as int),
            decreases deck.rows@.len() - rr,
        {
            let row = &deck.rows[rr];
            let values = resolve_params(&row.params, &ids);
            proof {
                assert(values@ =~= resolved_row(row.params@, ids@));
                assert(deck_part[rr as int] == DbStep::Row(row.sql@, values@));
            }
            match exec_stmt(tx, row.sql.as_str(), &values) {
                Ok(()) => {},
                Err(e) => {
                    proof {
                        let done = scripts + decks_steps(decks@.take(d as int), first)
                            + deck_part.take(rr as int);
                        let p = done.subrange(2, done.len() as int);
                        assert(tx.executed() =~= old(tx).executed() + done);
                        lemma_decks_steps_take_prefix(decks@, d as int + 1, first);
                        assert(p =~= decks_steps(decks@.take(d as int + 1), first).subrange(
                            0,
                            p.len() as int,
                        ));
                        assert(p =~= decks_steps(decks@, first).subrange(0, p.len() as int));
                        assert(done =~= scripts + p);
                        assert(p.len() <= decks_steps(decks@, first).len());
                        assert forall|j: int| 0 <= j < done.len() implies done[j] == plan[j] by {
                            if j >= 2 {
                                assert(done[j] == p[j - 2]);
                                assert(plan[j] == decks_steps(decks@, first)[j - 2]);
                            }
                        }
                        assert(done =~= plan.subrange(0, done.len() as int));
                        assert(done.is_prefix_of(plan));
                    }
                    return Err(e);
                },
            }
            proof {
                assert(deck_part.take(rr as int).push(deck_part[rr as int]) =~= deck_part.take(
                    rr as int + 1,
                ));
                assert(tx.executed() =~= old(tx).executed() + scripts + decks_steps(
                    decks@.take(d as int),
                    first,
                ) + deck_part.take(rr as int + 1));
            }
            rr = rr + 1;
        }
        proof {
            assert(deck_part.take(deck.rows@.len() as int) =~= deck_part);
            assert(tx.executed() =~= old(tx).executed() + scripts + decks_steps(
                decks@.take(d as int + 1),
                first,
            ));
        }
        d = d + 1;
    }
    proof {
        assert(decks@.take(decks@.len() as int) =~= decks@);
        assert(tx.executed() =~= old(tx).executed() + plan);
    }
    Ok(())
}

} // verus!
