//! Committing a manifest with a create-only PUT.
//!
//! The next manifest is written to a key that only one writer can create. A
//! writer that finds the key taken has lost a race: it waits, finds the new
//! HEAD, rebuilds its manifest on top and tries again, a bounded number of
//! times.

use vstd::prelude::*;
use vstd::string::*;

use crate::iceberg::manifest::Manifest;
use crate::text::{dec_i64, dec_u64, joined, show_number};
use crate::types::error::{ErrorView, MeruError, Result};

verus! {

/// How often a writer without a catalog tries one commit.
pub const MAX_RETRIES: u32 = 8;

/// How often a catalog tries one commit.
pub const CATALOG_MAX_RETRIES: u32 = 16;

/// The longest wait between two tries, in milliseconds.
pub const MAX_BACKOFF_MS: u64 = 200;

/// The key of the manifest at version `v`.
pub open spec fn manifest_key(v: i64) -> Seq<char> {
    "metadata/v"@ + crate::text::dec_int(v as int) + ".manifest.bin"@
}

/// The key of the manifest at version `v`. Discovery, commit and refresh all
/// probe these keys.
pub fn manifest_path(v: i64) -> (r: String)
    ensures
        r@ == manifest_key(v),
{
    let mut r = joined("metadata/v", dec_i64(v).as_str());
    r.append(".manifest.bin");
    r
}

/// Different versions have different keys.
pub proof fn law_manifest_keys_differ(a: i64, b: i64)
    requires
        manifest_key(a) == manifest_key(b),
    ensures
        a == b,
{
    let x = manifest_key(a);
    let y = manifest_key(b);
    let from = "metadata/v"@.len() as int;
    let tail = ".manifest.bin"@.len() as int;
    let da = crate::text::dec_int(a as int);
    let db = crate::text::dec_int(b as int);
    assert(x.subrange(from, x.len() - tail) =~= da);
    assert(y.subrange(from, y.len() - tail) =~= db);
    crate::text::lemma_dec_int_injective(a as int, b as int);
}

/// What is wrong with a manifest that is to follow `head`: it must carry the
/// next version and, behind the first, point back at `head`.
pub open spec fn chain_fault(head: i64, m: Manifest) -> Option<ErrorView> {
    if m.snapshot_id != head + 1 {
        Some(
            ErrorView::Corruption(
                "commit_with_retry: manifest.snapshot_id="@ + crate::text::dec_int(
                    m.snapshot_id as int,
                ) + " but expected_version="@ + crate::text::dec_int(head + 1),
            ),
        )
    } else if m.parent_snapshot_id != Some(head) && head != 0 {
        Some(
            ErrorView::Corruption(
                "commit_with_retry: manifest.parent_snapshot_id="@
                    + crate::text::shown_number(m.parent_snapshot_id)
                    + " but current_head="@ + crate::text::dec_int(head as int),
            ),
        )
    } else {
        None
    }
}

/// Checks that a manifest follows `head`, and returns its version.
pub fn check_chain(head: i64, m: &Manifest) -> (r: Result<i64>)
    requires
        head < i64::MAX,
    ensures
        match r {
            Ok(v) => chain_fault(head, *m) is None && v == head + 1,
            Err(e) => chain_fault(head, *m) == Some(e@),
        },
{
    let expected: i64 = head + 1;
    if m.snapshot_id != expected {
        let mut t = joined(
            "commit_with_retry: manifest.snapshot_id=",
            dec_i64(m.snapshot_id).as_str(),
        );
        t.append(" but expected_version=");
        t.append(dec_i64(expected).as_str());
        return Err(MeruError::Corruption(t));
    }
    let linked: bool = match m.parent_snapshot_id {
        Some(p) => p == head,
        None => false,
    };
    if !linked && head != 0 {
        let mut t = joined(
            "commit_with_retry: manifest.parent_snapshot_id=",
            show_number(m.parent_snapshot_id).as_str(),
        );
        t.append(" but current_head=");
        t.append(dec_i64(head).as_str());
        return Err(MeruError::Corruption(t));
    }
    Ok(expected)
}

/// Two to the power `n`, capped at [`MAX_BACKOFF_MS`].
pub open spec fn backoff(attempt: int) -> int {
    let p = vstd::arithmetic::power2::pow2(attempt as nat) as int;
    if p < MAX_BACKOFF_MS {
        p
    } else {
        MAX_BACKOFF_MS as int
    }
}

/// How long to wait after losing try number `attempt`, counted from 0: twice
/// as long each time, up to a cap.
pub fn backoff_ms(attempt: u32) -> (r: u64)
    ensures
        r == backoff(attempt as int),
{
    let mut wait: u64 = 1;
    let mut i: u32 = 0;
    proof {
        vstd::arithmetic::power2::lemma2_to64();
    }
    while i < attempt && wait < MAX_BACKOFF_MS
        invariant
            i <= attempt,
            wait == vstd::arithmetic::power2::pow2(i as nat),
            wait <= 2 * MAX_BACKOFF_MS,
        decreases attempt - i,
    {
        proof {
            vstd::arithmetic::power2::lemma_pow2_unfold((i + 1) as nat);
        }
        wait = wait * 2;
        i = i + 1;
    }
    proof {
        if i < attempt {
            vstd::arithmetic::power2::lemma_pow2_strictly_increases(i as nat, attempt as nat);
        }
    }
    if wait < MAX_BACKOFF_MS {
        wait
    } else {
        MAX_BACKOFF_MS
    }
}

/// What became of a create-only PUT.
#[derive(Debug, Clone, Copy, PartialEq, Eq, Structural)]
pub enum PutOutcome {
    /// The object was written.
    Written,
    /// The key was taken: another writer was faster.
    Taken,
    /// The store failed.
    Failed,
}

/// What to do after a try.
#[derive(Debug, Clone, Copy, PartialEq, Eq, Structural)]
pub enum TryStep {
    /// This version is committed.
    Committed(i64),
    /// Undo this try's uploads, wait this many milliseconds, find HEAD anew
    /// and go on.
    WaitAndRediscover(u64),
    /// Undo this try's uploads and hand the store's error on.
    Abort,
}

/// Who commits.
#[derive(Debug, Clone, Copy, PartialEq, Eq, Structural)]
pub enum Committer {
    /// A writer that builds each manifest itself.
    Writer,
    /// A catalog.
    Catalog,
}

impl Committer {
    /// How often a commit is tried.
    pub open spec fn tries(self) -> u32 {
        match self {
            Committer::Writer => MAX_RETRIES,
            Committer::Catalog => CATALOG_MAX_RETRIES,
        }
    }

    /// The error of a commit that lost every try.
    pub open spec fn defeat(self) -> ErrorView {
        ErrorView::ObjectStore(
            match self {
                Committer::Writer => "commit_with_retry: exceeded "@ + crate::text::dec_nat(
                    MAX_RETRIES as nat,
                ) + " retries on ObjectStore commit"@,
                Committer::Catalog => "ObjectStoreCatalog::commit: exceeded "@
                    + crate::text::dec_nat(CATALOG_MAX_RETRIES as nat) + " retries"@,
            },
        )
    }

    /// How often a commit is tried.
    pub fn max_tries(self) -> (r: u32)
        ensures
            r == self.tries(),
    {
        match self {
            Committer::Writer => MAX_RETRIES,
            Committer::Catalog => CATALOG_MAX_RETRIES,
        }
    }

    /// The error of a commit that lost every try.
    fn defeated(self) -> (r: MeruError)
        ensures
            r@ == self.defeat(),
    {
        let text = match self {
            Committer::Writer => {
                let mut m = joined(
                    "commit_with_retry: exceeded ",
                    dec_u64(MAX_RETRIES as u64).as_str(),
                );
                m.append(" retries on ObjectStore commit");
                m
            },
            Committer::Catalog => {
                let mut m = joined(
                    "ObjectStoreCatalog::commit: exceeded ",
                    dec_u64(CATALOG_MAX_RETRIES as u64).as_str(),
                );
                m.append(" retries");
                m
            },
        };
        MeruError::ObjectStore(text)
    }
}

/// A commit that is tried again when it loses a race.
#[derive(Debug, Clone, Copy, PartialEq, Eq, Structural)]
pub struct CommitRetry {
    /// The version that the next try builds on.
    pub head: i64,
    /// How many tries were lost.
    pub lost: u32,
    /// Who commits.
    pub who: Committer,
}

impl CommitRetry {
    /// Whether there is a try left.
    pub open spec fn wf(&self) -> bool {
        self.lost < self.who.tries()
    }

    /// A commit on top of `head`.
    pub fn start(head: i64, who: Committer) -> (r: Self)
        ensures
            r.wf(),
            r.head == head,
            r.lost == 0,
            r.who == who,
    {
        CommitRetry { head, lost: 0, who }
    }

    /// The version that this try writes: the one behind HEAD.
    pub fn version(&self) -> (r: i64)
        requires
            self.head < i64::MAX,
        ensures
            r == self.head + 1,
    {
        self.head + 1
    }

    /// What to do after the PUT of this try.
    pub fn after_put(&self, outcome: PutOutcome) -> (r: TryStep)
        requires
            self.head < i64::MAX,
        ensures
            r == match outcome {
                PutOutcome::Written => TryStep::Committed((self.head + 1) as i64),
                PutOutcome::Taken => TryStep::WaitAndRediscover(backoff(self.lost as int) as u64),
                PutOutcome::Failed => TryStep::Abort,
            },
    {
        match outcome {
            PutOutcome::Written => TryStep::Committed(self.head + 1),
            PutOutcome::Taken => TryStep::WaitAndRediscover(backoff_ms(self.lost)),
            PutOutcome::Failed => TryStep::Abort,
        }
    }

    /// The next try, on top of the HEAD that was found; an error when no try
    /// is left.
    pub fn rebase(self, new_head: i64) -> (r: Result<Self>)
        requires
            self.wf(),
        ensures
            match r {
                Ok(next) => {
                    &&& next.wf()
                    &&& next.head == new_head
                    &&& next.lost == self.lost + 1
                    &&& next.who == self.who
                },
                Err(e) => self.lost + 1 == self.who.tries() && e@ == self.who.defeat(),
            },
    {
        let next: u32 = self.lost + 1;
        if next >= self.who.max_tries() {
            return Err(self.who.defeated());
        }
        Ok(CommitRetry { head: new_head, lost: next, who: self.who })
    }
}

/// A committed version is exactly the one behind the HEAD that the try was
/// built on, so the chain of versions has no gap.
pub proof fn law_commit_extends_the_chain(head: i64, m: Manifest, v: i64)
    requires
        head < i64::MAX,
        chain_fault(head, m) is None,
        v == m.snapshot_id,
    ensures
        v == head + 1,
        head != 0 ==> m.parent_snapshot_id == Some(head),
{
}

/// What a store holds: manifests by key.
pub type Objects = Map<Seq<char>, Manifest>;

/// Whether a manifest has a live entry for a path.
pub open spec fn shows(m: Manifest, path: Seq<char>) -> bool {
    !crate::iceberg::manifest::none_live(m.entries@, path)
}

/// One create-only PUT of a manifest, by any writer.
pub struct Put {
    /// The version that the writer built on.
    pub head: i64,
    /// The manifest that it wants to publish.
    pub manifest: Manifest,
    /// The paths of the files that it adds.
    pub adds: Set<Seq<char>>,
}

impl Put {
    /// The version that the PUT would make.
    pub open spec fn version(self) -> i64 {
        (self.head + 1) as i64
    }

    /// Whether the key is free, so that the PUT writes.
    pub open spec fn wins(self, objects: Objects) -> bool {
        !objects.contains_key(manifest_key(self.version()))
    }

    /// What the store holds afterwards: a key that is taken keeps its object.
    pub open spec fn done(self, objects: Objects) -> Objects {
        if self.wins(objects) {
            objects.insert(manifest_key(self.version()), self.manifest)
        } else {
            objects
        }
    }

    /// Whether the writer built on a version of the store: the manifest
    /// follows it, and shows its files and those that are added.
    pub open spec fn builds_on(self, objects: Objects) -> bool {
        &&& 1 <= self.head < i64::MAX
        &&& objects.contains_key(manifest_key(self.head))
        &&& chain_fault(self.head, self.manifest) is None
        &&& forall|path: Seq<char>| #[trigger]
            shows(objects[manifest_key(self.head)], path) ==> shows(self.manifest, path)
        &&& forall|path: Seq<char>| #[trigger] self.adds.contains(path) ==> shows(
            self.manifest,
            path,
        )
    }
}

/// What the store holds after the PUTs, in the order in which they took
/// effect.
pub open spec fn after_puts(objects: Objects, puts: Seq<Put>) -> Objects
    decreases puts.len(),
{
    if puts.len() == 0 {
        objects
    } else {
        puts.last().done(after_puts(objects, puts.drop_last()))
    }
}

/// Whether each writer built on what the store held before its PUT.
pub open spec fn all_build(objects: Objects, puts: Seq<Put>) -> bool
    decreases puts.len(),
{
    puts.len() == 0 || {
        &&& all_build(objects, puts.drop_last())
        &&& puts.last().builds_on(after_puts(objects, puts.drop_last()))
    }
}

/// Whether PUT number `i` published its manifest.
pub open spec fn won(objects: Objects, puts: Seq<Put>, i: int) -> bool {
    puts[i].wins(after_puts(objects, puts.take(i)))
}

/// How many of the PUTs published a manifest.
pub open spec fn wins(objects: Objects, puts: Seq<Put>) -> int
    decreases puts.len(),
{
    if puts.len() == 0 {
        0
    } else {
        wins(objects, puts.drop_last()) + if puts.last().wins(
            after_puts(objects, puts.drop_last()),
        ) {
            1int
        } else {
            0int
        }
    }
}

/// Whether a store holds the versions 1 to `head` and nothing else, each with
/// its own number and, behind the first, pointing back at the one before.
pub open spec fn is_chain(objects: Objects, head: int) -> bool {
    &&& 1 <= head <= i64::MAX
    &&& forall|key: Seq<char>| #[trigger]
        objects.contains_key(key) <==> exists|v: i64| 1 <= v <= head && key == #[trigger]
            manifest_key(v)
    &&& forall|v: i64|
        1 <= v <= head ==> {
            let m = objects[#[trigger] manifest_key(v)];
            &&& m.snapshot_id == v
            &&& m.parent_snapshot_id == if v == 1 {
                None::<i64>
            } else {
                Some((v - 1) as i64)
            }
        }
}

/// One PUT keeps the chain, and makes it longer by one where it writes.
proof fn lemma_put_keeps_chain(objects: Objects, head: int, put: Put)
    requires
        is_chain(objects, head),
        put.builds_on(objects),
    ensures
        is_chain(
            put.done(objects),
            if put.wins(objects) {
                head + 1
            } else {
                head
            },
        ),
        put.wins(objects) ==> put.head == head,
{
    let h = choose|v: i64| 1 <= v <= head && manifest_key(put.head) == #[trigger] manifest_key(v);
    law_manifest_keys_differ(put.head, h);
    if put.wins(objects) {
        let v = put.version();
        if put.head < head {
            assert(objects.contains_key(manifest_key(v)));
        }
        let next = put.done(objects);
        assert forall|key: Seq<char>| #[trigger]
            next.contains_key(key) <==> exists|w: i64| 1 <= w <= head + 1 && key == #[trigger]
            manifest_key(w) by {
            if next.contains_key(key) && key != manifest_key(v) {
                assert(objects.contains_key(key));
                let w = choose|w: i64| 1 <= w <= head && key == #[trigger] manifest_key(w);
                assert(key == manifest_key(w));
            }
            if exists|w: i64| 1 <= w <= head + 1 && key == #[trigger] manifest_key(w) {
                let w = choose|w: i64| 1 <= w <= head + 1 && key == #[trigger] manifest_key(w);
                if w <= head {
                    assert(objects.contains_key(manifest_key(w)));
                } else {
                    assert(w == v);
                }
            }
        }
        assert forall|w: i64| 1 <= w <= head + 1 implies ({
            let m = next[#[trigger] manifest_key(w)];
            &&& m.snapshot_id == w
            &&& m.parent_snapshot_id == if w == 1 {
                None::<i64>
            } else {
                Some((w - 1) as i64)
            }
        }) by {
            if w <= head {
                if manifest_key(w) == manifest_key(v) {
                    law_manifest_keys_differ(w, v);
                }
                assert(next[manifest_key(w)] == objects[manifest_key(w)]);
            } else {
                assert(w == v);
            }
        }
    }
}

/// Several writers on one store whose PUT only creates make one chain. Let
/// the store hold version 1 alone, and let any number of writers PUT
/// manifests, each built on a version that the store held, in any interleaving
/// and with any number of lost races. Then HEAD is 1 and the number of
/// commits; the versions 1 to HEAD all exist, each with its own number and
/// pointing back at the one before.
pub proof fn law_writers_make_one_chain(objects: Objects, puts: Seq<Put>)
    requires
        is_chain(objects, 1),
        all_build(objects, puts),
    ensures
        is_chain(after_puts(objects, puts), 1 + wins(objects, puts)),
    decreases puts.len(),
{
    if puts.len() > 0 {
        let earlier = puts.drop_last();
        law_writers_make_one_chain(objects, earlier);
        lemma_put_keeps_chain(
            after_puts(objects, earlier),
            1 + wins(objects, earlier),
            puts.last(),
        );
    }
}

/// No manifest that was published is ever overwritten or lost.
pub proof fn law_published_manifests_stay(objects: Objects, puts: Seq<Put>, i: int, v: i64)
    requires
        0 <= i <= puts.len(),
        after_puts(objects, puts.take(i)).contains_key(manifest_key(v)),
    ensures
        after_puts(objects, puts).contains_key(manifest_key(v)),
        after_puts(objects, puts)[manifest_key(v)] == after_puts(objects, puts.take(
            i,
        ))[manifest_key(v)],
    decreases puts.len(),
{
    if i == puts.len() {
        assert(puts.take(i) =~= puts);
    } else {
        assert(puts.drop_last().take(i) =~= puts.take(i));
        law_published_manifests_stay(objects, puts.drop_last(), i, v);
    }
}

/// Each commit has a version of its own, the one behind all commits before
/// it: the version of a later commit is higher.
pub proof fn law_commits_have_their_own_versions(objects: Objects, puts: Seq<Put>, i: int, j: int)
    requires
        is_chain(objects, 1),
        all_build(objects, puts),
        0 <= i < j < puts.len(),
        won(objects, puts, i),
        won(objects, puts, j),
    ensures
        puts[i].version() == 2 + wins(objects, puts.take(i)),
        puts[j].version() == 2 + wins(objects, puts.take(j)),
        puts[i].version() < puts[j].version(),
{
    lemma_version_of_commit(objects, puts, i);
    lemma_version_of_commit(objects, puts, j);
    lemma_wins_grow(objects, puts, i + 1, j);
    assert(puts.take(i + 1).drop_last() =~= puts.take(i));
    assert(puts.take(i + 1).last() == puts[i]);
}

/// What was built on the store all along was so before each PUT.
proof fn lemma_all_build_prefix(objects: Objects, puts: Seq<Put>, i: int)
    requires
        all_build(objects, puts),
        0 <= i <= puts.len(),
    ensures
        all_build(objects, puts.take(i)),
    decreases puts.len(),
{
    if i == puts.len() {
        assert(puts.take(i) =~= puts);
    } else {
        lemma_all_build_prefix(objects, puts.drop_last(), i);
        assert(puts.drop_last().take(i) =~= puts.take(i));
    }
}

proof fn lemma_version_of_commit(objects: Objects, puts: Seq<Put>, i: int)
    requires
        is_chain(objects, 1),
        all_build(objects, puts),
        0 <= i < puts.len(),
        won(objects, puts, i),
    ensures
        puts[i].head == 1 + wins(objects, puts.take(i)),
        puts[i].version() == 2 + wins(objects, puts.take(i)),
{
    lemma_all_build_prefix(objects, puts, i + 1);
    let upto = puts.take(i + 1);
    assert(upto.drop_last() =~= puts.take(i));
    assert(upto.last() == puts[i]);
    law_writers_make_one_chain(objects, puts.take(i));
    lemma_put_keeps_chain(
        after_puts(objects, puts.take(i)),
        1 + wins(objects, puts.take(i)),
        puts[i],
    );
}

proof fn lemma_wins_grow(objects: Objects, puts: Seq<Put>, i: int, j: int)
    requires
        0 <= i <= j <= puts.len(),
    ensures
        wins(objects, puts.take(i)) <= wins(objects, puts.take(j)),
    decreases j - i,
{
    if i < j {
        lemma_wins_grow(objects, puts, i, j - 1);
        assert(puts.take(j).drop_last() =~= puts.take(j - 1));
    }
}

/// No commit is lost: the newest manifest shows the files that every commit
/// added, whoever made it.
pub proof fn law_head_shows_every_commit(objects: Objects, puts: Seq<Put>, i: int, path: Seq<char>)
    requires
        is_chain(objects, 1),
        all_build(objects, puts),
        0 <= i < puts.len(),
        won(objects, puts, i),
        puts[i].adds.contains(path),
    ensures
        shows(
            after_puts(objects, puts)[manifest_key((1 + wins(objects, puts)) as i64)],
            path,
        ),
    decreases puts.len(),
{
    let earlier = puts.drop_last();
    let last = puts.last();
    let before = after_puts(objects, earlier);
    law_writers_make_one_chain(objects, puts);
    law_writers_make_one_chain(objects, earlier);
    lemma_put_keeps_chain(before, 1 + wins(objects, earlier), last);
    if last.wins(before) {
        assert((1 + wins(objects, puts)) as i64 == last.version());
        assert(after_puts(objects, puts)[manifest_key(last.version())] == last.manifest);
    }
    if i == puts.len() - 1 {
        assert(puts.take(i) =~= earlier);
        assert(last.wins(before));
        assert(last.adds.contains(path));
    } else {
        assert(earlier.take(i) =~= puts.take(i));
        assert(earlier[i] == puts[i]);
        law_head_shows_every_commit(objects, earlier, i, path);
        if last.wins(before) {
            assert(last.head == (1 + wins(objects, earlier)) as i64);
            assert(shows(before[manifest_key(last.head)], path));
        }
    }
}

/// A manifest may follow HEAD exactly when it has the next version and, unless
/// it is the first, names HEAD as its parent; any other is corrupt.
pub proof fn law_only_the_next_manifest_may_follow(head: i64, m: Manifest)
    ensures
        chain_fault(head, m) is None <==> m.snapshot_id == head + 1 && (head == 0
            || m.parent_snapshot_id == Some(head)),
        chain_fault(head, m) matches Some(e) ==> e is Corruption,
{
}

/// The first wait is one millisecond, and each further one twice as long as
/// the one before, up to 200.
pub proof fn law_waits_double_up_to_a_cap(attempt: int)
    requires
        attempt >= 0,
    ensures
        backoff(0) == 1,
        backoff(attempt + 1) == if 2 * backoff(attempt) < 200 {
            2 * backoff(attempt)
        } else {
            200
        },
{
    vstd::arithmetic::power2::lemma2_to64();
    vstd::arithmetic::power2::lemma_pow2_unfold((attempt + 1) as nat);
    vstd::arithmetic::power2::lemma_pow2_pos(attempt as nat);
}

/// A writer tries eight times, a catalog twice as often, and a commit that
/// loses every try is an error of the object store.
pub proof fn law_tries(who: Committer)
    ensures
        who is Writer ==> who.tries() == 8,
        who is Catalog ==> who.tries() == 16,
        who.defeat() is ObjectStore,
{
}

/// Manifests lie in `metadata`, each under the number of its version.
pub proof fn law_manifest_key_names_its_version(v: i64)
    ensures
        crate::paths::parent_of(manifest_key(v)) == Some("metadata"@),
        crate::paths::last_component(manifest_key(v)) == "v"@ + crate::text::dec_int(v as int)
            + ".manifest.bin"@,
{
    reveal_strlit("metadata/v");
    reveal_strlit("metadata");
    reveal_strlit("v");
    reveal_strlit(".manifest.bin");
    let m: nat = if v < 0 {
        (-v) as nat
    } else {
        v as nat
    };
    let d = crate::text::dec_nat(m);
    let s = crate::text::dec_int(v as int);
    crate::text::lemma_dec_nat_digits(m);
    let name = "v"@ + s + ".manifest.bin"@;
    assert forall|i: int| 0 <= i < s.len() implies #[trigger] s[i] != '/' by {
        if v < 0 {
            if i > 0 {
                assert(s[i] == d[i - 1]);
                assert(crate::text::is_digit(d[i - 1]));
            }
        } else {
            assert(crate::text::is_digit(d[i]));
        }
    }
    assert forall|i: int| 0 <= i < name.len() implies #[trigger] name[i] != '/' by {
        if i == 0 {
            assert(name[i] == "v"@[0]);
        } else if i < 1 + s.len() {
            assert(name[i] == s[i - 1]);
        } else {
            assert(name[i] == ".manifest.bin"@[i - 1 - s.len()]);
        }
    }
    assert(name.len() > 1);
    assert("metadata/v"@ =~= "metadata"@ + seq!['/'] + "v"@);
    assert(manifest_key(v) =~= "metadata"@ + seq!['/'] + name);
    crate::paths::law_parent_and_name_of_a_file("metadata"@, name);
}

/// A manifest shows a path exactly when one of its entries for it is not
/// deleted.
pub proof fn law_manifest_shows_its_live_entries(m: Manifest, path: Seq<char>)
    ensures
        shows(m, path) <==> exists|k: int|
            0 <= k < m.entries@.len() && (#[trigger] m.entries@[k]).path@ == path
                && m.entries@[k].status@ != "deleted"@,
{
    crate::iceberg::manifest::law_first_live_entry(m.entries@, path, 0);
}

/// The error of a manifest that does not follow HEAD names what it carries and
/// what was expected.
pub proof fn law_chain_fault_names_the_versions(head: i64, m: Manifest)
    ensures
        m.snapshot_id != head + 1 ==> (chain_fault(head, m) matches Some(ErrorView::Corruption(t))
            && crate::text::contains_text(t, crate::text::dec_int(m.snapshot_id as int))
            && crate::text::contains_text(t, crate::text::dec_int(head + 1))),
        m.snapshot_id == head + 1 && head != 0 && m.parent_snapshot_id != Some(head) ==> (
        chain_fault(head, m) matches Some(ErrorView::Corruption(t)) && crate::text::contains_text(
            t,
            crate::text::shown_number(m.parent_snapshot_id),
        ) && crate::text::contains_text(t, crate::text::dec_int(head as int))),
{
    let none = Seq::<char>::empty();
    if m.snapshot_id != head + 1 {
        let t = chain_fault(head, m)->0->Corruption_0;
        let a = "commit_with_retry: manifest.snapshot_id="@;
        let b = crate::text::dec_int(m.snapshot_id as int);
        let c = " but expected_version="@;
        let d = crate::text::dec_int(head + 1);
        assert(t =~= a + b + (c + d));
        crate::text::lemma_contains_text(a, b, c + d);
        assert(t =~= (a + b + c) + d + none);
        crate::text::lemma_contains_text(a + b + c, d, none);
    } else if head != 0 && m.parent_snapshot_id != Some(head) {
        let t = chain_fault(head, m)->0->Corruption_0;
        let a = "commit_with_retry: manifest.parent_snapshot_id="@;
        let b = crate::text::shown_number(m.parent_snapshot_id);
        let c = " but current_head="@;
        let d = crate::text::dec_int(head as int);
        assert(t =~= a + b + (c + d));
        crate::text::lemma_contains_text(a, b, c + d);
        assert(t =~= (a + b + c) + d + none);
        crate::text::lemma_contains_text(a + b + c, d, none);
    }
}

} // verus!
