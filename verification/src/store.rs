use vstd::prelude::*;

use crate::errors::AppError;
use crate::models::EntryResponse;

verus! {

/// One persisted slug-to-URL mapping, the sole persisted entity.
pub struct Entry {
    pub id: String,
    pub url: String,
    pub slug: String,
    pub created_at: String,
}

/// Mathematical image of one entry: its four fields as character sequences.
pub struct EntryModel {
    pub id: Seq<char>,
    pub url: Seq<char>,
    pub slug: Seq<char>,
    pub created_at: Seq<char>,
}

impl View for Entry {
    type V = EntryModel;

    open spec fn view(&self) -> EntryModel {
        EntryModel {
            id: self.id@,
            url: self.url@,
            slug: self.slug@,
            created_at: self.created_at@,
        }
    }
}

impl View for EntryResponse {
    type V = EntryModel;

    open spec fn view(&self) -> EntryModel {
        EntryModel {
            id: self.id@,
            url: self.url@,
            slug: self.slug@,
            created_at: self.created_at@,
        }
    }
}

/// Whether the table holds a live entry with this slug.
pub open spec fn has_slug(t: Seq<EntryModel>, slug: Seq<char>) -> bool {
    exists|i: int| #![trigger t[i]] 0 <= i < t.len() && t[i].slug == slug
}

/// Whether the table holds a live entry with this id.
pub open spec fn has_id(t: Seq<EntryModel>, id: Seq<char>) -> bool {
    exists|i: int| #![trigger t[i]] 0 <= i < t.len() && t[i].id == id
}

/// The position of the entry with this slug; meaningful when `has_slug` holds.
pub open spec fn slug_index(t: Seq<EntryModel>, slug: Seq<char>) -> int {
    choose|i: int| #![trigger t[i]] 0 <= i < t.len() && t[i].slug == slug
}

/// The entry stored under this slug; meaningful when `has_slug` holds.
pub open spec fn entry_at(t: Seq<EntryModel>, slug: Seq<char>) -> EntryModel {
    t[slug_index(t, slug)]
}

/// How many rows of the table carry this slug.
pub open spec fn slug_count(t: Seq<EntryModel>, slug: Seq<char>) -> nat
    decreases t.len(),
{
    if t.len() == 0 {
        0
    } else {
        slug_count(t.drop_last(), slug) + (if t.last().slug == slug {
            1nat
        } else {
            0nat
        })
    }
}

/// Table invariant: slugs are unique among all live entries, and so are ids.
pub open spec fn wf_table(t: Seq<EntryModel>) -> bool {
    forall|i: int, j: int| #![trigger t[i], t[j]]
        0 <= i < j < t.len() ==> t[i].slug != t[j].slug && t[i].id != t[j].id
}

/// Outcome of a lookup, at the level of the model: the stored URL when the
/// slug is live, nothing otherwise.
pub open spec fn resolve_spec(t: Seq<EntryModel>, slug: Seq<char>) -> Option<Seq<char>> {
    if has_slug(t, slug) {
        Some(entry_at(t, slug).url)
    } else {
        None
    }
}

/// Why a create was refused: the slug conflict, which wins over everything
/// else, or a clash on the primary key id.
pub enum CreateFailure {
    SlugTaken,
    IdTaken,
}

/// Outcome of a create, at the level of the model: the enlarged table
/// exactly when the slug and the id are both fresh, the owed failure
/// otherwise.
pub open spec fn create_spec(t: Seq<EntryModel>, e: EntryModel) -> Result<
    Seq<EntryModel>,
    CreateFailure,
> {
    if has_slug(t, e.slug) {
        Err(CreateFailure::SlugTaken)
    } else if has_id(t, e.id) {
        Err(CreateFailure::IdTaken)
    } else {
        Ok(t.push(e))
    }
}

/// Outcome of a delete, at the level of the model: the table without the
/// entry when the slug is live, nothing otherwise.
pub open spec fn delete_spec(t: Seq<EntryModel>, slug: Seq<char>) -> Option<Seq<EntryModel>> {
    if has_slug(t, slug) {
        Some(t.remove(slug_index(t, slug)))
    } else {
        None
    }
}

/// A slug that is not live is carried by no row at all.
proof fn lemma_slug_count_absent(t: Seq<EntryModel>, slug: Seq<char>)
    requires
        !has_slug(t, slug),
    ensures
        slug_count(t, slug) == 0,
    decreases t.len(),
{
    if t.len() > 0 {
        let u = t.drop_last();
        assert forall|i: int| #![trigger u[i]] 0 <= i < u.len() implies u[i].slug != slug by {
            assert(u[i] == t[i]);
        }
        lemma_slug_count_absent(u, slug);
        assert(t.last() == t[t.len() - 1]);
    }
}

/// Law (uniqueness): inserting a fresh slug into a well-formed table leaves
/// a well-formed table that holds exactly one row for that slug, and any
/// further create carrying the same slug — whatever id, url and timestamp it
/// carries — is refused with the slug conflict. Since creation is serialized
/// at the store, of two creates racing on one slug the one applied second
/// meets exactly this refusal, so by `create_entry`'s contract it fails with
/// `DuplicateSlug` and changes nothing: exactly one of the pair succeeds,
/// and one row for the slug remains. Only the first entry's own id must be
/// fresh, which is its caller's obligation.
pub proof fn lemma_create_unique(pre: Seq<EntryModel>, post: Seq<EntryModel>, e: EntryModel)
    requires
        wf_table(pre),
        !has_slug(pre, e.slug),
        !has_id(pre, e.id),
        post == pre.push(e),
    ensures
        wf_table(post),
        has_slug(post, e.slug),
        slug_count(post, e.slug) == 1,
        create_spec(pre, e) == Ok::<Seq<EntryModel>, CreateFailure>(post),
        forall|e2: EntryModel| #![trigger create_spec(post, e2)]
            e2.slug == e.slug ==> create_spec(post, e2) == Err::<Seq<EntryModel>, CreateFailure>(
                CreateFailure::SlugTaken,
            ),
{
    assert forall|p: int, q: int| #![trigger post[p], post[q]]
        0 <= p < q < post.len() implies post[p].slug != post[q].slug && post[p].id
        != post[q].id by {
        if q == post.len() - 1 {
            assert(post[p] == pre[p]);
            assert(post[q] == e);
            assert(pre[p].slug != e.slug);
            assert(pre[p].id != e.id);
        } else {
            assert(post[p] == pre[p] && post[q] == pre[q]);
        }
    }
    assert(post[post.len() - 1] == e);
    lemma_slug_count_absent(pre, e.slug);
    assert(post.drop_last() =~= pre);
    assert(post.last() == e);
}

/// Law (round trip): after a fresh slug is inserted, looking that slug up
/// yields exactly the URL that was stored, with no change beyond the
/// normalization already applied before storage.
pub proof fn lemma_round_trip(pre: Seq<EntryModel>, post: Seq<EntryModel>, e: EntryModel)
    requires
        wf_table(pre),
        !has_slug(pre, e.slug),
        post == pre.push(e),
    ensures
        has_slug(post, e.slug),
        entry_at(post, e.slug) == e,
        resolve_spec(post, e.slug) == Some(e.url),
{
    assert(post[post.len() - 1] == e);
    let j = slug_index(post, e.slug);
    assert(0 <= j < post.len() && post[j].slug == e.slug);
    if j != post.len() - 1 {
        assert(post[j] == pre[j]);
        assert(false);
    }
}

/// Law (not-found symmetry): a slug with no live entry resolves to nothing
/// and deletes to nothing, so by the store's contracts both
/// `get_entry_by_slug` and `delete_entry_by_slug` fail with `NotFound` on it.
pub proof fn lemma_not_found_symmetry(t: Seq<EntryModel>, slug: Seq<char>)
    requires
        !has_slug(t, slug),
    ensures
        resolve_spec(t, slug) is None,
        delete_spec(t, slug) is None,
{
}

/// Law (delete finality): after a successful delete the slug is no longer
/// live, so a following resolve and a second delete both come out as
/// `NotFound`; the table stays well formed.
pub proof fn lemma_delete_finality(pre: Seq<EntryModel>, post: Seq<EntryModel>, slug: Seq<char>)
    requires
        wf_table(pre),
        delete_spec(pre, slug) == Some(post),
    ensures
        wf_table(post),
        !has_slug(post, slug),
        resolve_spec(post, slug) is None,
        delete_spec(post, slug) is None,
{
    let i = slug_index(pre, slug);
    assert(0 <= i < pre.len() && pre[i].slug == slug);
    assert(post == pre.remove(i));
    assert forall|p: int, q: int| #![trigger post[p], post[q]]
        0 <= p < q < post.len() implies post[p].slug != post[q].slug && post[p].id
        != post[q].id by {
        let p0: int = if p < i {
            p
        } else {
            p + 1
        };
        let q0: int = if q < i {
            q
        } else {
            q + 1
        };
        assert(post[p] == pre[p0] && post[q] == pre[q0]);
        assert(pre[p0].slug != pre[q0].slug && pre[p0].id != pre[q0].id);
    }
    assert forall|p: int| #![trigger post[p]] 0 <= p < post.len() implies post[p].slug != slug by {
        let p0: int = if p < i {
            p
        } else {
            p + 1
        };
        assert(post[p] == pre[p0]);
        if pre[p0].slug == slug {
            if p0 < i {
                assert(pre[p0].slug != pre[i].slug);
            } else {
                assert(pre[i].slug != pre[p0].slug);
            }
        }
    }
}

/// Law (immutable timestamp, creation case): a lookup never mutates the
/// table, so two sequential reads of one entry see the same record; and
/// creating a different slug leaves the record at this slug — its
/// `created_at` included — exactly as it was.
pub proof fn lemma_entry_stable_under_create(t: Seq<EntryModel>, e2: EntryModel, slug: Seq<char>)
    requires
        wf_table(t),
        has_slug(t, slug),
        e2.slug != slug,
    ensures
        has_slug(t.push(e2), slug),
        entry_at(t.push(e2), slug) == entry_at(t, slug),
{
    let post = t.push(e2);
    let i = slug_index(t, slug);
    assert(0 <= i < t.len() && t[i].slug == slug);
    assert(post[i] == t[i]);
    let j = slug_index(post, slug);
    assert(0 <= j < post.len() && post[j].slug == slug);
    if j == post.len() - 1 {
        assert(post[j] == e2);
        assert(false);
    }
    assert(post[j] == t[j]);
    if i != j {
        if i < j {
            assert(t[i].slug != t[j].slug);
        } else {
            assert(t[j].slug != t[i].slug);
        }
        assert(false);
    }
}

/// Law (immutable timestamp, deletion case): deleting a different slug
/// leaves the record at this slug — its `created_at` included — exactly as
/// it was.
pub proof fn lemma_entry_stable_under_delete(
    t: Seq<EntryModel>,
    slug2: Seq<char>,
    slug: Seq<char>,
    post: Seq<EntryModel>,
)
    requires
        wf_table(t),
        has_slug(t, slug),
        slug2 != slug,
        delete_spec(t, slug2) == Some(post),
    ensures
        has_slug(post, slug),
        entry_at(post, slug) == entry_at(t, slug),
{
    let i = slug_index(t, slug2);
    assert(0 <= i < t.len() && t[i].slug == slug2);
    assert(post == t.remove(i));
    let k = slug_index(t, slug);
    assert(0 <= k < t.len() && t[k].slug == slug);
    assert(k != i);
    let k2: int = if k < i {
        k
    } else {
        k - 1
    };
    assert(post[k2] == t[k]);
    let j = slug_index(post, slug);
    assert(0 <= j < post.len() && post[j].slug == slug);
    let j0: int = if j < i {
        j
    } else {
        j + 1
    };
    assert(post[j] == t[j0]);
    if j0 != k {
        if j0 < k {
            assert(t[j0].slug != t[k].slug);
        } else {
            assert(t[k].slug != t[j0].slug);
        }
        assert(false);
    }
}

/// The character for one decimal digit.
pub open spec fn decimal_digit(d: nat) -> char {
    if d == 0 {
        '0'
    } else if d == 1 {
        '1'
    } else if d == 2 {
        '2'
    } else if d == 3 {
        '3'
    } else if d == 4 {
        '4'
    } else if d == 5 {
        '5'
    } else if d == 6 {
        '6'
    } else if d == 7 {
        '7'
    } else if d == 8 {
        '8'
    } else {
        '9'
    }
}

/// The decimal rendering of a natural number, without leading zeros
/// (a single zero for zero itself).
pub open spec fn decimal_rep(n: nat) -> Seq<char>
    decreases n,
{
    if n < 10 {
        seq![decimal_digit(n)]
    } else {
        decimal_rep(n / 10).push(decimal_digit(n % 10))
    }
}

/// One decimal digit as text.
fn digit_str(d: u64) -> (s: &'static str)
    requires
        d < 10,
    ensures
        s@ == seq![decimal_digit(d as nat)],
{
    proof {
        reveal_strlit("0");
        reveal_strlit("1");
        reveal_strlit("2");
        reveal_strlit("3");
        reveal_strlit("4");
        reveal_strlit("5");
        reveal_strlit("6");
        reveal_strlit("7");
        reveal_strlit("8");
        reveal_strlit("9");
    }
    let s = if d == 0 {
        "0"
    } else if d == 1 {
        "1"
    } else if d == 2 {
        "2"
    } else if d == 3 {
        "3"
    } else if d == 4 {
        "4"
    } else if d == 5 {
        "5"
    } else if d == 6 {
        "6"
    } else if d == 7 {
        "7"
    } else if d == 8 {
        "8"
    } else {
        "9"
    };
    proof {
        assert(s@ =~= seq![decimal_digit(d as nat)]);
    }
    s
}

/// Renders a number in decimal, exactly as `decimal_rep` describes it.
pub fn decimal_string(n: u64) -> (s: String)
    ensures
        s@ == decimal_rep(n as nat),
    decreases n,
{
    if n < 10 {
        digit_str(n).to_string()
    } else {
        let mut s = decimal_string(n / 10);
        s.append(digit_str(n % 10));
        proof {
            assert(s@ =~= decimal_rep(n as nat));
        }
        s
    }
}

/// Relies on std::time::SystemTime::now for the wall clock: the seconds
/// since the Unix epoch, or zero if the clock reads earlier than the epoch.
/// Nothing is promised of the value; it depends on the machine's clock.
#[verifier::external_body]
fn unix_seconds_now() -> u64 {
    match std::time::SystemTime::now().duration_since(std::time::UNIX_EPOCH) {
        Ok(d) => d.as_secs(),
        Err(_) => 0,
    }
}

/// The mapping table. All reads and mutations of the live entries funnel
/// through the methods of this type, which enforce the slug-uniqueness
/// invariant atomically at insertion; the embedding process keeps the table
/// behind one serialized access path, so no two operations on the same slug
/// are ever interleaved.
pub struct Store {
    entries: Vec<Entry>,
}

impl View for Store {
    type V = Seq<EntryModel>;

    closed spec fn view(&self) -> Seq<EntryModel> {
        self.entries@.map_values(|e: Entry| e@)
    }
}

impl Store {
    /// The table invariant, established by the constructor and preserved by
    /// every operation.
    pub open spec fn wf(&self) -> bool {
        wf_table(self@)
    }

    /// A fresh, empty table. Safe to call on every process start.
    pub fn new() -> (s: Store)
        ensures
            s@ == Seq::<EntryModel>::empty(),
            s.wf(),
    {
        let s = Store { entries: Vec::new() };
        proof {
            assert(s@ =~= Seq::<EntryModel>::empty());
        }
        s
    }

    /// How many live entries the table holds.
    pub fn len(&self) -> (n: usize)
        ensures
            n == self@.len(),
    {
        self.entries.len()
    }

    /// Linear scan for the row holding this slug.
    fn find_slug(&self, slug: &String) -> (r: Option<usize>)
        ensures
            match r {
                Some(i) => 0 <= i < self@.len() && self@[i as int].slug == slug@,
                None => !has_slug(self@, slug@),
            },
    {
        let n = self.entries.len();
        let mut i: usize = 0;
        while i < n
            invariant
                n == self.entries.len(),
                i <= n,
                forall|j: int| #![trigger self@[j]] 0 <= j < i ==> self@[j].slug != slug@,
            decreases n - i,
        {
            if self.entries[i].slug == *slug {
                return Some(i);
            }
            i = i + 1;
        }
        None
    }

    /// Linear scan for the row holding this id.
    fn find_id(&self, id: &String) -> (r: Option<usize>)
        ensures
            match r {
                Some(i) => 0 <= i < self@.len() && self@[i as int].id == id@,
                None => !has_id(self@, id@),
            },
    {
        let n = self.entries.len();
        let mut i: usize = 0;
        while i < n
            invariant
                n == self.entries.len(),
                i <= n,
                forall|j: int| #![trigger self@[j]] 0 <= j < i ==> self@[j].id != id@,
            decreases n - i,
        {
            if self.entries[i].id == *id {
                return Some(i);
            }
            i = i + 1;
        }
        None
    }

    /// Inserts a new entry with a server-assigned `created_at`, then returns
    /// the persisted row, so the caller observes exactly what was stored.
    /// The insertion and the uniqueness check are one indivisible step: if
    /// the slug is already live the call fails with `DuplicateSlug` and the
    /// table is unchanged; a clash on the primary key `id` (the caller's
    /// responsibility to avoid) surfaces as `StorageFault`, also with the
    /// table unchanged.
    pub fn create_entry(&mut self, id: String, url: String, slug: String) -> (r: Result<
        EntryResponse,
        AppError,
    >)
        requires
            old(self).wf(),
        ensures
            final(self).wf(),
            has_slug(old(self)@, slug@) ==> (r matches Err(AppError::DuplicateSlug) && final(self)@
                == old(self)@),
            !has_slug(old(self)@, slug@) && has_id(old(self)@, id@) ==> (r matches Err(
                AppError::StorageFault(m),
            ) && m@ == "duplicate id"@) && final(self)@ == old(self)@,
            !has_slug(old(self)@, slug@) && !has_id(old(self)@, id@) ==> (r matches Ok(e) && e.id@
                == id@ && e.url@ == url@ && e.slug@ == slug@ && final(self)@ == old(self)@.push(
                e@,
            ) && (exists|ts: u64| e.created_at@ == decimal_rep(ts as nat))),
            r matches Ok(e) ==> create_spec(old(self)@, e@) == Ok::<Seq<EntryModel>, CreateFailure>(
                final(self)@,
            ),
    {
        match self.find_slug(&slug) {
            Some(i) => {
                proof {
                    assert(0 <= (i as int) < self@.len() && self@[i as int].slug == slug@);
                }
                return Err(AppError::DuplicateSlug);
            },
            None => {},
        }
        match self.find_id(&id) {
            Some(i) => {
                proof {
                    assert(0 <= (i as int) < self@.len() && self@[i as int].id == id@);
                }
                return Err(AppError::StorageFault("duplicate id".to_string()));
            },
            None => {},
        }
        let ghost pre = self@;
        let now = unix_seconds_now();
        let created_at = decimal_string(now);
        let entry = Entry { id, url, slug, created_at };
        let ghost em = entry@;
        self.entries.push(entry);
        proof {
            assert(self@ =~= pre.push(em));
            assert forall|p: int, q: int| #![trigger self@[p], self@[q]]
                0 <= p < q < self@.len() implies self@[p].slug != self@[q].slug && self@[p].id
                != self@[q].id by {
                if q < pre.len() {
                    assert(self@[p] == pre[p] && self@[q] == pre[q]);
                } else {
                    assert(self@[q] == em);
                    assert(self@[p] == pre[p]);
                    assert(pre[p].slug != em.slug);
                    assert(pre[p].id != em.id);
                }
            }
        }
        let n = self.entries.len();
        let stored = &self.entries[n - 1];
        let resp = EntryResponse {
            id: stored.id.clone(),
            url: stored.url.clone(),
            slug: stored.slug.clone(),
            created_at: stored.created_at.clone(),
        };
        proof {
            assert(resp@ == em);
        }
        Ok(resp)
    }

    /// A borrowed view of one stored row, for walking the table when a
    /// snapshot of it is taken.
    pub fn get_entry(&self, i: usize) -> (e: &Entry)
        requires
            i < self@.len(),
        ensures
            e@ == self@[i as int],
    {
        &self.entries[i]
    }

    /// Re-inserts a previously persisted row, its timestamp included: the
    /// load half of durability, for rebuilding the table from a snapshot at
    /// process start. The arbitration is `create_entry`'s: a live slug is
    /// refused with `DuplicateSlug`, a live id with `StorageFault`, and
    /// otherwise the row is appended exactly as given.
    pub fn restore_entry(&mut self, entry: Entry) -> (r: Result<(), AppError>)
        requires
            old(self).wf(),
        ensures
            final(self).wf(),
            has_slug(old(self)@, entry.slug@) ==> (r matches Err(AppError::DuplicateSlug)
                && final(self)@ == old(self)@),
            !has_slug(old(self)@, entry.slug@) && has_id(old(self)@, entry.id@) ==> (r matches Err(
                AppError::StorageFault(m),
            ) && m@ == "duplicate id"@ && final(self)@ == old(self)@),
            !has_slug(old(self)@, entry.slug@) && !has_id(old(self)@, entry.id@) ==> (r matches Ok(
                u,
            ) && final(self)@ == old(self)@.push(entry@)),
    {
        match self.find_slug(&entry.slug) {
            Some(i) => {
                proof {
                    assert(0 <= (i as int) < self@.len() && self@[i as int].slug == entry.slug@);
                }
                return Err(AppError::DuplicateSlug);
            },
            None => {},
        }
        match self.find_id(&entry.id) {
            Some(i) => {
                proof {
                    assert(0 <= (i as int) < self@.len() && self@[i as int].id == entry.id@);
                }
                return Err(AppError::StorageFault("duplicate id".to_string()));
            },
            None => {},
        }
        let ghost pre = self@;
        let ghost em = entry@;
        self.entries.push(entry);
        proof {
            assert(self@ =~= pre.push(em));
            assert forall|p: int, q: int| #![trigger self@[p], self@[q]]
                0 <= p < q < self@.len() implies self@[p].slug != self@[q].slug && self@[p].id
                != self@[q].id by {
                if q < pre.len() {
                    assert(self@[p] == pre[p] && self@[q] == pre[q]);
                } else {
                    assert(self@[q] == em);
                    assert(self@[p] == pre[p]);
                    assert(pre[p].slug != em.slug);
                    assert(pre[p].id != em.id);
                }
            }
        }
        Ok(())
    }

    /// Removes the entry with this slug if one is live; fails with
    /// `NotFound` exactly when none is, so a second delete of the same slug
    /// reports `NotFound` rather than success.
    pub fn delete_entry_by_slug(&mut self, slug: String) -> (r: Result<(), AppError>)
        requires
            old(self).wf(),
        ensures
            final(self).wf(),
            delete_spec(old(self)@, slug@) matches Some(t2) ==> (r matches Ok(u) && final(self)@
                == t2),
            delete_spec(old(self)@, slug@) is None ==> (r matches Err(AppError::NotFound)
                && final(self)@ == old(self)@),
    {
        match self.find_slug(&slug) {
            Some(i) => {
                proof {
                    assert(0 <= (i as int) < self@.len() && self@[i as int].slug == slug@);
                    let j = slug_index(self@, slug@);
                    if i as int != j {
                        assert(self@[i as int].slug != self@[j].slug);
                    }
                }
                let ghost pre = self@;
                self.entries.remove(i);
                proof {
                    assert(self@ =~= pre.remove(i as int));
                    assert forall|p: int, q: int| #![trigger self@[p], self@[q]]
                        0 <= p < q < self@.len() implies self@[p].slug != self@[q].slug
                        && self@[p].id != self@[q].id by {
                        let p0: int = if p < i as int { p } else { p + 1 };
                        let q0: int = if q < i as int { q } else { q + 1 };
                        assert(self@[p] == pre[p0] && self@[q] == pre[q0]);
                        assert(pre[p0].slug != pre[q0].slug && pre[p0].id != pre[q0].id);
                    }
                }
                Ok(())
            },
            None => Err(AppError::NotFound),
        }
    }

    /// Looks up the live entry with this slug and returns its URL; fails
    /// with `NotFound` exactly when no such entry exists. Never-existed and
    /// deleted slugs are indistinguishable, by design.
    pub fn get_entry_by_slug(&self, slug: String) -> (r: Result<String, AppError>)
        requires
            self.wf(),
        ensures
            resolve_spec(self@, slug@) matches Some(u) ==> (r matches Ok(x) && x@ == u),
            resolve_spec(self@, slug@) is None ==> r matches Err(AppError::NotFound),
    {
        match self.find_slug(&slug) {
            Some(i) => {
                proof {
                    let j = slug_index(self@, slug@);
                    if i as int != j {
                        assert(self@[i as int].slug != self@[j].slug);
                    }
                }
                Ok(self.entries[i].url.clone())
            },
            None => Err(AppError::NotFound),
        }
    }
}

} // verus!

