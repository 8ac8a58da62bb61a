//! Objects in an S3 bucket below one prefix.

use vstd::prelude::*;
use vstd::string::*;

use crate::text::{chars_of, string_of};
use crate::types::error::{MeruError, Result};

verus! {

/// The location that a key of slash-separated parts stands for: what
/// `object_store::path::Path` makes of it. Empty parts are left out and
/// characters that object stores do not take are percent-encoded.
pub uninterp spec fn store_location(key: Seq<char>) -> Seq<char>;

/// `object_store::path::Path::from` of a `String`, and the text of the path.
#[verifier::external_body]
fn location_of(key: String) -> (r: String)
    ensures
        r@ == store_location(key@),
{
    String::from(object_store::path::Path::from(key))
}

/// `p` without trailing slashes.
pub open spec fn without_slashes(p: Seq<char>) -> Seq<char>
    decreases p.len(),
{
    if p.len() > 0 && p.last() == '/' {
        without_slashes(p.drop_last())
    } else {
        p
    }
}

/// The key of an object below a prefix.
pub open spec fn key_below(prefix: Seq<char>, path: Seq<char>) -> Seq<char> {
    if prefix.len() == 0 {
        path
    } else {
        without_slashes(prefix) + "/"@ + path
    }
}

/// A prefix of keys in a bucket.
#[derive(Debug)]
pub struct S3Store {
    prefix: String,
}

/// An answer of the store that is not success.
#[derive(Debug)]
pub enum StoreFault {
    /// There is no such object.
    NotFound(String),
    /// The object is there already.
    AlreadyExists(String),
    /// The condition of the request did not hold.
    Precondition(String),
    /// Anything else.
    Other(String),
}

impl StoreFault {
    /// The store's message.
    pub open spec fn message(&self) -> Seq<char> {
        match self {
            StoreFault::NotFound(m) => m@,
            StoreFault::AlreadyExists(m) => m@,
            StoreFault::Precondition(m) => m@,
            StoreFault::Other(m) => m@,
        }
    }

    /// The error of an operation for which no answer has a meaning of its
    /// own.
    pub fn into_error(self) -> (r: MeruError)
        ensures
            r@ == crate::types::error::ErrorView::ObjectStore(self.message()),
    {
        match self {
            StoreFault::NotFound(m) => MeruError::ObjectStore(m),
            StoreFault::AlreadyExists(m) => MeruError::ObjectStore(m),
            StoreFault::Precondition(m) => MeruError::ObjectStore(m),
            StoreFault::Other(m) => MeruError::ObjectStore(m),
        }
    }
}

impl S3Store {
    /// The prefix of the store's keys.
    pub closed spec fn prefix(&self) -> Seq<char> {
        self.prefix@
    }

    /// The store below a prefix.
    pub fn new(prefix: String) -> (r: Self)
        ensures
            r.prefix() == prefix@,
    {
        S3Store { prefix }
    }

    /// The key of an object: the prefix without trailing slashes, one slash
    /// and the object's path, or the path alone where there is no prefix.
    pub fn object_key(&self, path: &str) -> (r: String)
        ensures
            r@ == key_below(self.prefix(), path@),
    {
        let chars = chars_of(self.prefix.as_str());
        let n: usize = chars.len();
        if n == 0 {
            return path.to_owned();
        }
        let mut end: usize = n;
        assert(chars@.take(n as int) =~= chars@);
        while end > 0 && chars[end - 1] == '/'
            invariant
                end <= n == chars@.len(),
                without_slashes(chars@.take(end as int)) == without_slashes(chars@),
            decreases end,
        {
            assert(chars@.take(end as int).last() == chars@[end - 1]);
            assert(chars@.take(end as int).drop_last() =~= chars@.take(end - 1));
            end = end - 1;
        }
        proof {
            assert(chars@.subrange(0, end as int) =~= chars@.take(end as int));
            if end > 0 {
                assert(chars@.take(end as int).last() == chars@[end - 1]);
            }
            assert(without_slashes(chars@) == chars@.take(end as int));
        }
        let mut r = string_of(&chars, 0, end);
        r.append("/");
        r.append(path);
        r
    }

    /// Where an object lies in the bucket.
    pub fn object_path(&self, path: &str) -> (r: String)
        ensures
            r@ == store_location(key_below(self.prefix(), path@)),
    {
        location_of(self.object_key(path))
    }
}

/// What asking for an object's existence returns.
pub fn existence(answer: std::result::Result<(), StoreFault>) -> (r: Result<bool>)
    ensures
        match r {
            Ok(there) => there == (answer is Ok) && (answer is Err ==> answer->Err_0 is NotFound),
            Err(e) => {
                &&& answer is Err
                &&& !(answer->Err_0 is NotFound)
                &&& e@ == crate::types::error::ErrorView::ObjectStore(answer->Err_0.message())
            },
        },
{
    match answer {
        Ok(()) => Ok(true),
        Err(StoreFault::NotFound(_)) => Ok(false),
        Err(fault) => Err(fault.into_error()),
    }
}

/// What deleting an object returns. Deleting is idempotent: an object that is
/// not there counts as deleted.
pub fn removed(answer: std::result::Result<(), StoreFault>) -> (r: Result<()>)
    ensures
        match r {
            Ok(()) => answer is Ok || answer->Err_0 is NotFound,
            Err(e) => {
                &&& answer is Err
                &&& !(answer->Err_0 is NotFound)
                &&& e@ == crate::types::error::ErrorView::ObjectStore(answer->Err_0.message())
            },
        },
{
    match answer {
        Ok(()) => Ok(()),
        Err(StoreFault::NotFound(_)) => Ok(()),
        Err(fault) => Err(fault.into_error()),
    }
}

/// What a create-only write returns. The store reports a lost race as an
/// object that exists or as a condition that failed; both mean that another
/// writer was first.
pub fn created(path: &str, answer: std::result::Result<(), StoreFault>) -> (r: Result<()>)
    ensures
        match r {
            Ok(()) => answer is Ok,
            Err(e) => {
                &&& answer is Err
                &&& e@ == if answer->Err_0 is AlreadyExists || answer->Err_0 is Precondition {
                    crate::types::error::ErrorView::AlreadyExists(path@)
                } else {
                    crate::types::error::ErrorView::ObjectStore(answer->Err_0.message())
                }
            },
        },
{
    match answer {
        Ok(()) => Ok(()),
        Err(StoreFault::AlreadyExists(_)) => Err(MeruError::AlreadyExists(path.to_owned())),
        Err(StoreFault::Precondition(_)) => Err(MeruError::AlreadyExists(path.to_owned())),
        Err(fault) => Err(fault.into_error()),
    }
}

/// One trailing slash more or less in the prefix does not change a key.
pub proof fn law_trailing_slash_is_ignored(prefix: Seq<char>, path: Seq<char>)
    requires
        prefix.len() > 0,
    ensures
        key_below(prefix.push('/'), path) == key_below(prefix, path),
{
    assert(prefix.push('/').drop_last() =~= prefix);
}

/// A prefix without slashes at its end is what is left when only slashes are
/// taken from its end, all of them.
pub proof fn law_only_trailing_slashes_go(p: Seq<char>)
    ensures
        without_slashes(p).is_prefix_of(p),
        without_slashes(p).len() > 0 ==> without_slashes(p).last() != '/',
        forall|i: int| without_slashes(p).len() <= i < p.len() ==> #[trigger] p[i] == '/',
    decreases p.len(),
{
    if p.len() > 0 && p.last() == '/' {
        law_only_trailing_slashes_go(p.drop_last());
        assert(without_slashes(p).is_prefix_of(p));
        assert forall|i: int| without_slashes(p).len() <= i < p.len() implies #[trigger] p[i]
            == '/' by {
            if i < p.len() - 1 {
                assert(p.drop_last()[i] == p[i]);
            }
        }
    }
}

/// A key is its prefix, one slash and the path; without a prefix it is the
/// path alone. So paths below one prefix do not share a key.
pub proof fn law_key_is_prefix_and_path(prefix: Seq<char>, path: Seq<char>, other: Seq<char>)
    ensures
        key_below(Seq::empty(), path) == path,
        prefix.len() > 0 && prefix.last() != '/' ==> key_below(prefix, path) == prefix + seq!['/']
            + path,
        key_below(prefix, path) == key_below(prefix, other) ==> path == other,
{
    reveal_strlit("/");
    assert("/"@ =~= seq!['/']);
    if key_below(prefix, path) == key_below(prefix, other) && prefix.len() > 0 {
        let n = without_slashes(prefix).len() as int + 1;
        assert(key_below(prefix, path).skip(n) =~= path);
        assert(key_below(prefix, other).skip(n) =~= other);
    }
}

/// The message of a fault is the store's own, whatever the fault.
pub proof fn law_fault_message_is_the_stores(f: StoreFault)
    ensures
        f matches StoreFault::NotFound(m) ==> f.message() == m@,
        f matches StoreFault::AlreadyExists(m) ==> f.message() == m@,
        f matches StoreFault::Precondition(m) ==> f.message() == m@,
        f matches StoreFault::Other(m) ==> f.message() == m@,
{
}

} // verus!
