//! Decks as opaque row-populating participants.
//!
//! The snapshot writer does not know the deck/note/card object model: a deck
//! hands it the relational rows it wants inserted, as SQL insert statements
//! with parameter values.  A parameter may be a literal, or a reference to one
//! of the fresh identifiers the deck draws from the build's shared generator:
//! `FreshId(k)` stands for the `k`-th of the `ids_needed` identifiers drawn
//! for this deck, so a note row and its card rows can share the note's key.

use vstd::prelude::*;

verus! {

/// A parameter of one row insert, before identifiers are drawn.
pub enum RowParam {
    /// A literal integer value.
    Int(i64),
    /// A literal text value.
    Text(String),
    /// The `k`-th fresh identifier drawn for the owning deck.
    FreshId(usize),
}

/// A parameter value as handed to the relational store.
pub enum SqlValue {
    /// An integer value.
    Int(i64),
    /// A text value.
    Text(String),
}

/// One parameterized SQL insert statement a deck contributes.
pub struct RowInsert {
    /// The statement's SQL text, with positional placeholders.
    pub sql: String,
    /// The values bound to the placeholders, in order.
    pub params: Vec<RowParam>,
}

/// One deck's contribution to the relational snapshot: how many fresh
/// identifiers it draws, and the rows it populates with them.
pub struct Deck {
    /// How many identifiers this deck draws from the shared generator.
    pub ids_needed: usize,
    /// The insert statements to run, in order.
    pub rows: Vec<RowInsert>,
}

impl Deck {
    /// Every `FreshId` reference points at one of the deck's own drawn
    /// identifiers.
    pub open spec fn wf(&self) -> bool {
        forall|i: int, j: int|
            0 <= i < self.rows@.len() && 0 <= j < self.rows@[i].params@.len() ==> ((
            #[trigger] self.rows@[i].params@[j]) matches RowParam::FreshId(k) ==> k
                < self.ids_needed)
    }

    /// Runtime check of [`Deck::wf`], for callers outside verified code.
    pub fn check_wf(&self) -> (b: bool)
        ensures
            b == self.wf(),
    {
        let mut i: usize = 0;
        while i < self.rows.len()
            invariant
                i <= self.rows@.len(),
                forall|x: int, y: int|
                    0 <= x < i && 0 <= y < self.rows@[x].params@.len() ==> ((
                    #[trigger] self.rows@[x].params@[y]) matches RowParam::FreshId(k) ==> k
                        < self.ids_needed),
            decreases self.rows@.len() - i,
        {
            let params = &self.rows[i].params;
            let mut j: usize = 0;
            while j < params.len()
                invariant
                    j <= params@.len(),
                    params == &self.rows@[i as int].params,
                    i < self.rows@.len(),
                    forall|y: int|
                        0 <= y < j ==> ((#[trigger] params@[y]) matches RowParam::FreshId(k)
                            ==> k < self.ids_needed),
                decreases params@.len() - j,
            {
                match &params[j] {
                    RowParam::FreshId(k) => {
                        if *k >= self.ids_needed {
                            return false;
                        }
                    },
                    _ => {},
                }
                j = j + 1;
            }
            i = i + 1;
        }
        true
    }
}

/// The total number of identifiers a list of decks draws, in list order.
pub open spec fn total_ids(decks: Seq<Deck>) -> int
    decreases decks.len(),
{
    if decks.len() == 0 {
        0
    } else {
        total_ids(decks.drop_last()) + decks.last().ids_needed
    }
}

/// One more deck adds exactly its own `ids_needed` to the running total.
pub proof fn lemma_total_ids_take_step(s: Seq<Deck>, d: int)
    requires
        0 <= d < s.len(),
    ensures
        total_ids(s.take(d + 1)) == total_ids(s.take(d)) + s[d].ids_needed,
{
    assert(s.take(d + 1).drop_last() =~= s.take(d));
    assert(s.take(d + 1).last() == s[d]);
}

/// The total over any list of decks is non-negative.
pub proof fn lemma_total_ids_nonneg(s: Seq<Deck>)
    ensures
        total_ids(s) >= 0,
    decreases s.len(),
{
    if s.len() > 0 {
        lemma_total_ids_nonneg(s.drop_last());
    }
}

/// A prefix of a deck list never draws more identifiers than the whole list.
pub proof fn lemma_total_ids_take_bound(s: Seq<Deck>, d: int)
    requires
        0 <= d <= s.len(),
    ensures
        total_ids(s.take(d)) <= total_ids(s),
    decreases s.len() - d,
{
    if d == s.len() {
        assert(s.take(d) =~= s);
    } else {
        lemma_total_ids_take_step(s, d);
        lemma_total_ids_take_bound(s, d + 1);
    }
}

/// What one parameter resolves to, given the deck's drawn identifiers.
pub open spec fn resolve_param_spec(p: RowParam, ids: Seq<u64>) -> SqlValue {
    match p {
        RowParam::Int(v) => SqlValue::Int(v),
        RowParam::Text(s) => SqlValue::Text(s),
        RowParam::FreshId(k) => SqlValue::Int(ids[k as int] as i64),
    }
}

/// Resolve one row's parameters against the deck's drawn identifiers.
pub fn resolve_params(params: &Vec<RowParam>, ids: &Vec<u64>) -> (r: Vec<SqlValue>)
    requires
        forall|j: int|
            0 <= j < params@.len() ==> ((#[trigger] params@[j]) matches RowParam::FreshId(k)
                ==> k < ids@.len()),
        forall|i: int| 0 <= i < ids@.len() ==> #[trigger] ids@[i] <= i64::MAX,
    ensures
        r@.len() == params@.len(),
        forall|j: int| 0 <= j < params@.len() ==> r@[j] == resolve_param_spec(params@[j], ids@),
{
    let mut out: Vec<SqlValue> = Vec::new();
    let mut j: usize = 0;
    while j < params.len()
        invariant
            j <= params@.len(),
            out@.len() == j,
            forall|x: int|
                0 <= x < params@.len() ==> ((#[trigger] params@[x]) matches RowParam::FreshId(k)
                    ==> k < ids@.len()),
            forall|i: int| 0 <= i < ids@.len() ==> #[trigger] ids@[i] <= i64::MAX,
            forall|x: int| 0 <= x < j ==> out@[x] == resolve_param_spec(params@[x], ids@),
        decreases params@.len() - j,
    {
        let v = match &params[j] {
            RowParam::Int(v) => SqlValue::Int(*v),
            RowParam::Text(s) => SqlValue::Text(s.clone()),
            RowParam::FreshId(k) => SqlValue::Int(ids[*k] as i64),
        };
        out.push(v);
        j = j + 1;
    }
    out
}

} // verus!
