//! The errors of the catalog, and the texts they carry.
use crate::text::{decimal, holds_word, push_decimal, push_text};
use vstd::prelude::*;

verus! {

/// Why an operation was refused or could not finish.
#[derive(Debug, PartialEq, Eq)]
pub enum Error {
    /// A name is taken.
    AlreadyExists(String),
    /// Something named does not exist.
    NotFound(String),
    /// A rule of the catalog forbids the request.
    Constraint(String),
    /// Stored or staged data contradicts itself.
    Corruption(String),
    /// A concurrent commit touched the same state.
    CommitConflict(String),
    /// The attempts that a commit may take are spent.
    RetryBudgetExhausted(String),
    /// An index is still being built.
    IndexBuilding(String),
    /// A snapshot is gone.
    SnapshotExpired(String),
    /// The commit-slot log cannot be reached.
    SlotLog(String),
    /// A structural migration cannot run.
    Migration(String),
    /// Another writer took the store over.
    Fenced(String),
    /// The store itself failed.
    Store(String),
}

/// The model of [`Error`].
pub enum Fault {
    AlreadyExists(Seq<char>),
    NotFound(Seq<char>),
    Constraint(Seq<char>),
    Corruption(Seq<char>),
    CommitConflict(Seq<char>),
    RetryBudgetExhausted(Seq<char>),
    IndexBuilding(Seq<char>),
    SnapshotExpired(Seq<char>),
    SlotLog(Seq<char>),
    Migration(Seq<char>),
    Fenced(Seq<char>),
    Store(Seq<char>),
}

impl View for Error {
    type V = Fault;

    open spec fn view(&self) -> Fault {
        match *self {
            Error::AlreadyExists(t) => Fault::AlreadyExists(t@),
            Error::NotFound(t) => Fault::NotFound(t@),
            Error::Constraint(t) => Fault::Constraint(t@),
            Error::Corruption(t) => Fault::Corruption(t@),
            Error::CommitConflict(t) => Fault::CommitConflict(t@),
            Error::RetryBudgetExhausted(t) => Fault::RetryBudgetExhausted(t@),
            Error::IndexBuilding(t) => Fault::IndexBuilding(t@),
            Error::SnapshotExpired(t) => Fault::SnapshotExpired(t@),
            Error::SlotLog(t) => Fault::SlotLog(t@),
            Error::Migration(t) => Fault::Migration(t@),
            Error::Fenced(t) => Fault::Fenced(t@),
            Error::Store(t) => Fault::Store(t@),
        }
    }
}

/// What an error says: its kind, then its text.
pub open spec fn message(f: Fault) -> Seq<char> {
    match f {
        Fault::AlreadyExists(t) => "already exists: "@ + t,
        Fault::NotFound(t) => "not found: "@ + t,
        Fault::Constraint(t) => "constraint violation: "@ + t,
        Fault::Corruption(t) => "corruption: "@ + t,
        Fault::CommitConflict(t) => "commit conflict: "@ + t,
        Fault::RetryBudgetExhausted(t) => "retry budget exhausted: "@ + t,
        Fault::IndexBuilding(t) => "index building: "@ + t,
        Fault::SnapshotExpired(t) => "snapshot expired: "@ + t,
        Fault::SlotLog(t) => "slot log: "@ + t,
        Fault::Migration(t) => "migration: "@ + t,
        Fault::Fenced(t) => "fenced: "@ + t,
        Fault::Store(t) => "store: "@ + t,
    }
}

impl Error {
    /// What the error says: its kind, then its text.
    pub fn message(&self) -> (t: String)
        ensures
            t@ == message(self@),
    {
        let mut t = String::new();
        match self {
            Error::AlreadyExists(text) => {
                push_text(&mut t, "already exists: ");
                push_text(&mut t, text);
            },
            Error::NotFound(text) => {
                push_text(&mut t, "not found: ");
                push_text(&mut t, text);
            },
            Error::Constraint(text) => {
                push_text(&mut t, "constraint violation: ");
                push_text(&mut t, text);
            },
            Error::Corruption(text) => {
                push_text(&mut t, "corruption: ");
                push_text(&mut t, text);
            },
            Error::CommitConflict(text) => {
                push_text(&mut t, "commit conflict: ");
                push_text(&mut t, text);
            },
            Error::RetryBudgetExhausted(text) => {
                push_text(&mut t, "retry budget exhausted: ");
                push_text(&mut t, text);
            },
            Error::IndexBuilding(text) => {
                push_text(&mut t, "index building: ");
                push_text(&mut t, text);
            },
            Error::SnapshotExpired(text) => {
                push_text(&mut t, "snapshot expired: ");
                push_text(&mut t, text);
            },
            Error::SlotLog(text) => {
                push_text(&mut t, "slot log: ");
                push_text(&mut t, text);
            },
            Error::Migration(text) => {
                push_text(&mut t, "migration: ");
                push_text(&mut t, text);
            },
            Error::Fenced(text) => {
                push_text(&mut t, "fenced: ");
                push_text(&mut t, text);
            },
            Error::Store(text) => {
                push_text(&mut t, "store: ");
                push_text(&mut t, text);
            },
        }
        assert(t@ =~= message(self@));
        t
    }
}

/// What a lost race says always holds the word `conflict`, by which a writer
/// decides to try again.
pub proof fn conflicts_say_so(text: Seq<char>)
    ensures
        holds_word(message(Fault::CommitConflict(text)), "conflict"@),
{
    let t = message(Fault::CommitConflict(text));
    reveal_strlit("commit conflict: ");
    reveal_strlit("conflict");
    assert(t.subrange(7, 7int + "conflict"@.len()) =~= "conflict"@);
}

/// Whether a result is the refusal `f`.
pub open spec fn refused<T>(r: Result<T, Error>, f: Fault) -> bool {
    r is Err && r->Err_0@ == f
}

/// `a`, then the numeral of `n`, then `b`.
pub open spec fn around(a: Seq<char>, n: u64, b: Seq<char>) -> Seq<char> {
    a + decimal(n as nat) + b
}

pub fn text_around(a: &str, n: u64, b: &str) -> (t: String)
    ensures
        t@ == around(a@, n, b@),
{
    let mut t = String::new();
    push_text(&mut t, a);
    push_decimal(&mut t, n);
    push_text(&mut t, b);
    assert(t@ =~= around(a@, n, b@));
    t
}

/// `a`, then `m`, then `b`.
pub open spec fn wrapped(a: Seq<char>, m: Seq<char>, b: Seq<char>) -> Seq<char> {
    a + m + b
}

pub fn text_wrapped(a: &str, m: &str, b: &str) -> (t: String)
    ensures
        t@ == wrapped(a@, m@, b@),
{
    let mut t = String::new();
    push_text(&mut t, a);
    push_text(&mut t, m);
    push_text(&mut t, b);
    assert(t@ =~= wrapped(a@, m@, b@));
    t
}

/// `a n b m c`, the numbers as numerals.
pub open spec fn around_two(
    a: Seq<char>,
    n: u64,
    b: Seq<char>,
    m: u64,
    c: Seq<char>,
) -> Seq<char> {
    around(a, n, b) + decimal(m as nat) + c
}

pub fn text_around_two(a: &str, n: u64, b: &str, m: u64, c: &str) -> (t: String)
    ensures
        t@ == around_two(a@, n, b@, m, c@),
{
    let mut t = text_around(a, n, b);
    push_decimal(&mut t, m);
    push_text(&mut t, c);
    assert(t@ =~= around_two(a@, n, b@, m, c@));
    t
}

/// `std`'s debug form of a text: quoted, with the escapes of a string literal.
pub uninterp spec fn debug_text(t: Seq<char>) -> Seq<char>;

/// `format!("{:?}")` of a text gives its debug form, a function of the text.
#[verifier::external_body]
pub(crate) fn debug_form(text: &str) -> (t: String)
    ensures
        t@ == debug_text(text@),
{
    format!("{text:?}")
}

} // verus!
