//! The error type of every fallible operation.

use vstd::prelude::*;
use vstd::string::*;

use crate::text::{dec_u64, joined};

verus! {

/// Everything that can go wrong in the engine.
#[derive(Debug)]
pub enum MeruError {
    /// A read or write of the operating system failed, with its message.
    Io(String),
    /// Stored bytes do not have the form that the format demands.
    Corruption(String),
    /// A row does not fit its schema.
    SchemaMismatch(String),
    /// The key has no row.
    NotFound,
    /// The object store refused an operation.
    ObjectStore(String),
    /// The Parquet layer failed.
    Parquet(String),
    /// The Iceberg layer failed.
    Iceberg(String),
    /// The write-ahead log failed.
    Wal(String),
    /// A compaction failed.
    Compaction(String),
    /// The caller passed something unusable.
    InvalidArgument(String),
    /// A write was asked of a read-only database.
    ReadOnly,
    /// The database was closed.
    Closed,
    /// A create-only PUT lost a race: the path exists. The expected outcome
    /// of losing, not a failure; callers refetch HEAD, rebuild and retry.
    AlreadyExists(String),
    /// The change feed no longer reaches back to `requested`.
    ChangeFeedBelowRetention { requested: u64, low_water: u64 },
}

/// A [`MeruError`] with each text as a sequence of characters.
pub enum ErrorView {
    Io(Seq<char>),
    Corruption(Seq<char>),
    SchemaMismatch(Seq<char>),
    NotFound,
    ObjectStore(Seq<char>),
    Parquet(Seq<char>),
    Iceberg(Seq<char>),
    Wal(Seq<char>),
    Compaction(Seq<char>),
    InvalidArgument(Seq<char>),
    ReadOnly,
    Closed,
    AlreadyExists(Seq<char>),
    ChangeFeedBelowRetention { requested: u64, low_water: u64 },
}

impl View for MeruError {
    type V = ErrorView;

    open spec fn view(&self) -> ErrorView {
        match self {
            MeruError::Io(m) => ErrorView::Io(m@),
            MeruError::Corruption(m) => ErrorView::Corruption(m@),
            MeruError::SchemaMismatch(m) => ErrorView::SchemaMismatch(m@),
            MeruError::NotFound => ErrorView::NotFound,
            MeruError::ObjectStore(m) => ErrorView::ObjectStore(m@),
            MeruError::Parquet(m) => ErrorView::Parquet(m@),
            MeruError::Iceberg(m) => ErrorView::Iceberg(m@),
            MeruError::Wal(m) => ErrorView::Wal(m@),
            MeruError::Compaction(m) => ErrorView::Compaction(m@),
            MeruError::InvalidArgument(m) => ErrorView::InvalidArgument(m@),
            MeruError::ReadOnly => ErrorView::ReadOnly,
            MeruError::Closed => ErrorView::Closed,
            MeruError::AlreadyExists(m) => ErrorView::AlreadyExists(m@),
            MeruError::ChangeFeedBelowRetention { requested, low_water } => {
                ErrorView::ChangeFeedBelowRetention {
                    requested: *requested,
                    low_water: *low_water,
                }
            },
        }
    }
}

/// The result of every fallible operation.
pub type Result<T> = std::result::Result<T, MeruError>;

impl ErrorView {
    /// The line that is shown to a user.
    pub open spec fn text(self) -> Seq<char> {
        match self {
            ErrorView::Io(m) => "IO error: "@ + m,
            ErrorView::Corruption(m) => "corruption: "@ + m,
            ErrorView::SchemaMismatch(m) => "schema mismatch: "@ + m,
            ErrorView::NotFound => "key not found"@,
            ErrorView::ObjectStore(m) => "object store error: "@ + m,
            ErrorView::Parquet(m) => "parquet error: "@ + m,
            ErrorView::Iceberg(m) => "iceberg error: "@ + m,
            ErrorView::Wal(m) => "WAL error: "@ + m,
            ErrorView::Compaction(m) => "compaction error: "@ + m,
            ErrorView::InvalidArgument(m) => "invalid argument: "@ + m,
            ErrorView::ReadOnly => "operation not permitted: database is read-only"@,
            ErrorView::Closed => "database is closed"@,
            ErrorView::AlreadyExists(m) => "object already exists: "@ + m,
            ErrorView::ChangeFeedBelowRetention { requested, low_water } => {
                "change feed below retention: requested seq "@ + crate::text::dec_nat(
                    requested as nat,
                ) + ", low water "@ + crate::text::dec_nat(low_water as nat)
                    + "; escalate to an Iceberg snapshot scan"@
            },
        }
    }
}

impl MeruError {
    /// The line that is shown to a user.
    pub fn to_string(&self) -> (r: String)
        ensures
            r@ == self@.text(),
    {
        match self {
            MeruError::Io(m) => joined("IO error: ", m.as_str()),
            MeruError::Corruption(m) => joined("corruption: ", m.as_str()),
            MeruError::SchemaMismatch(m) => joined("schema mismatch: ", m.as_str()),
            MeruError::NotFound => "key not found".to_owned(),
            MeruError::ObjectStore(m) => joined("object store error: ", m.as_str()),
            MeruError::Parquet(m) => joined("parquet error: ", m.as_str()),
            MeruError::Iceberg(m) => joined("iceberg error: ", m.as_str()),
            MeruError::Wal(m) => joined("WAL error: ", m.as_str()),
            MeruError::Compaction(m) => joined("compaction error: ", m.as_str()),
            MeruError::InvalidArgument(m) => joined("invalid argument: ", m.as_str()),
            MeruError::ReadOnly => "operation not permitted: database is read-only".to_owned(),
            MeruError::Closed => "database is closed".to_owned(),
            MeruError::AlreadyExists(m) => joined("object already exists: ", m.as_str()),
            MeruError::ChangeFeedBelowRetention { requested, low_water } => {
                let mut r = "change feed below retention: requested seq ".to_owned();
                r.append(dec_u64(*requested).as_str());
                r.append(", low water ");
                r.append(dec_u64(*low_water).as_str());
                r.append("; escalate to an Iceberg snapshot scan");
                r
            },
        }
    }
}

/// The view of an error has its kind and its message.
pub proof fn law_error_view_keeps_kind_and_message(e: MeruError)
    ensures
        e matches MeruError::Io(m) ==> e@ == ErrorView::Io(m@),
        e matches MeruError::Corruption(m) ==> e@ == ErrorView::Corruption(m@),
        e matches MeruError::SchemaMismatch(m) ==> e@ == ErrorView::SchemaMismatch(m@),
        e is NotFound <==> e@ is NotFound,
        e matches MeruError::ObjectStore(m) ==> e@ == ErrorView::ObjectStore(m@),
        e matches MeruError::Parquet(m) ==> e@ == ErrorView::Parquet(m@),
        e matches MeruError::Iceberg(m) ==> e@ == ErrorView::Iceberg(m@),
        e matches MeruError::Wal(m) ==> e@ == ErrorView::Wal(m@),
        e matches MeruError::Compaction(m) ==> e@ == ErrorView::Compaction(m@),
        e matches MeruError::InvalidArgument(m) ==> e@ == ErrorView::InvalidArgument(m@),
        e is ReadOnly <==> e@ is ReadOnly,
        e is Closed <==> e@ is Closed,
        e matches MeruError::AlreadyExists(m) ==> e@ == ErrorView::AlreadyExists(m@),
        e matches MeruError::ChangeFeedBelowRetention { requested, low_water } ==> e@
            == (ErrorView::ChangeFeedBelowRetention { requested, low_water }),
{
}

/// What is shown of an error with a message ends with that message, whole and
/// unchanged, behind words for its kind.
pub proof fn law_error_text_ends_with_its_message(m: Seq<char>, e: ErrorView)
    requires
        e == ErrorView::Io(m) || e == ErrorView::Corruption(m) || e == ErrorView::SchemaMismatch(m)
            || e == ErrorView::ObjectStore(m) || e == ErrorView::Parquet(m) || e
            == ErrorView::Iceberg(m) || e == ErrorView::Wal(m) || e == ErrorView::Compaction(m) || e
            == ErrorView::InvalidArgument(m) || e == ErrorView::AlreadyExists(m),
    ensures
        e.text().len() > m.len() + 2,
        e.text().skip(e.text().len() - m.len()) == m,
        e.text()[e.text().len() - m.len() - 1] == ' ',
        e.text()[e.text().len() - m.len() - 2] == ':',
{
    reveal_strlit("IO error: ");
    reveal_strlit("corruption: ");
    reveal_strlit("schema mismatch: ");
    reveal_strlit("object store error: ");
    reveal_strlit("parquet error: ");
    reveal_strlit("iceberg error: ");
    reveal_strlit("WAL error: ");
    reveal_strlit("compaction error: ");
    reveal_strlit("invalid argument: ");
    reveal_strlit("object already exists: ");
    assert(e.text().skip(e.text().len() - m.len()) =~= m);
}

/// Each kind of error is shown with words of its own.
pub proof fn law_error_texts(m: Seq<char>, requested: u64, low_water: u64)
    ensures
        ErrorView::Io(m).text() == "IO error: "@ + m,
        ErrorView::Corruption(m).text() == "corruption: "@ + m,
        ErrorView::SchemaMismatch(m).text() == "schema mismatch: "@ + m,
        ErrorView::NotFound.text() == "key not found"@,
        ErrorView::ObjectStore(m).text() == "object store error: "@ + m,
        ErrorView::Parquet(m).text() == "parquet error: "@ + m,
        ErrorView::Iceberg(m).text() == "iceberg error: "@ + m,
        ErrorView::Wal(m).text() == "WAL error: "@ + m,
        ErrorView::Compaction(m).text() == "compaction error: "@ + m,
        ErrorView::InvalidArgument(m).text() == "invalid argument: "@ + m,
        ErrorView::ReadOnly.text() == "operation not permitted: database is read-only"@,
        ErrorView::Closed.text() == "database is closed"@,
        ErrorView::AlreadyExists(m).text() == "object already exists: "@ + m,
        crate::text::contains_text(
            (ErrorView::ChangeFeedBelowRetention { requested, low_water }).text(),
            "requested seq "@ + crate::text::dec_nat(requested as nat),
        ),
        crate::text::contains_text(
            (ErrorView::ChangeFeedBelowRetention { requested, low_water }).text(),
            "low water "@ + crate::text::dec_nat(low_water as nat),
        ),
{
    reveal_strlit("change feed below retention: requested seq ");
    reveal_strlit("change feed below retention: ");
    reveal_strlit("requested seq ");
    reveal_strlit(", low water ");
    reveal_strlit(", ");
    reveal_strlit("low water ");
    let a = crate::text::dec_nat(requested as nat);
    let b = crate::text::dec_nat(low_water as nat);
    let t = (ErrorView::ChangeFeedBelowRetention { requested, low_water }).text();
    let end = "; escalate to an Iceberg snapshot scan"@;
    assert("change feed below retention: requested seq "@ =~= "change feed below retention: "@
        + "requested seq "@);
    assert(", low water "@ =~= ", "@ + "low water "@);
    assert(t =~= "change feed below retention: "@ + ("requested seq "@ + a) + (", low water "@ + b
        + end));
    crate::text::lemma_contains_text(
        "change feed below retention: "@,
        "requested seq "@ + a,
        ", low water "@ + b + end,
    );
    assert(t =~= ("change feed below retention: requested seq "@ + a + ", "@) + ("low water "@ + b)
        + end);
    crate::text::lemma_contains_text(
        "change feed below retention: requested seq "@ + a + ", "@,
        "low water "@ + b,
        end,
    );
}

} // verus!
