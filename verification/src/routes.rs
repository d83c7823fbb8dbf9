use vstd::prelude::*;

use crate::errors::AppError;
use crate::models::{EntryRequest, EntryResponse};
use crate::store::{delete_spec, has_slug, resolve_spec, Store};

verus! {

/// What URL parsing and normalization yield for a given input: the
/// serialization of the parsed absolute URL when the input is a well-formed
/// URL, or the parser's message rendered as text when it is not. The outcome
/// depends on the input characters alone.
pub uninterp spec fn url_normalization(s: Seq<char>) -> Result<Seq<char>, Seq<char>>;

/// Relies on url::Url::parse for syntactic validation and normalization:
/// the result is the normalized serialization of the URL exactly when the
/// input parses, and the parse error rendered as text when it does not.
#[verifier::external_body]
fn parse_url(s: &str) -> (r: Result<String, String>)
    ensures
        match r {
            Ok(u) => url_normalization(s@) == Ok::<Seq<char>, Seq<char>>(u@),
            Err(m) => url_normalization(s@) == Err::<Seq<char>, Seq<char>>(m@),
        },
{
    match url::Url::parse(s) {
        Ok(u) => Ok(u.to_string()),
        Err(e) => Err(e.to_string()),
    }
}

/// Relies on uuid::Uuid::new_v4 and its Display form: a fresh random
/// version-4 UUID rendered as the 36-character hyphenated text. The value is
/// random, so only its length is promised.
#[verifier::external_body]
fn new_entry_id() -> (r: String)
    ensures
        r@.len() == 36,
{
    uuid::Uuid::new_v4().to_string()
}

/// The greeting payload of the unauthenticated index route.
pub fn handle_index_get() -> (r: String)
    ensures
        r@ == "{value: who dis}"@,
{
    "{value: who dis}".to_string()
}

/// Create path: validates that the supplied URL is syntactically well formed
/// before the store is ever invoked — a malformed URL never reaches it and
/// comes back as `MalformedInput` carrying the parser's message, with the
/// table untouched — then draws a fresh id and inserts. A slug already in
/// use comes back as `DuplicateSlug`; in either failure the table is
/// unchanged. When the URL parses and the slug is fresh, success is owed:
/// the call returns the persisted entry exactly as stored, unless the drawn
/// id is already present, which surfaces as the store's `StorageFault` with
/// its message passed through unchanged. Each error is reported exactly when
/// its cause held — none is invented, none is swallowed, none is retried.
pub fn handle_entry_post(store: &mut Store, input: EntryRequest) -> (r: Result<
    EntryResponse,
    AppError,
>)
    requires
        old(store).wf(),
    ensures
        final(store).wf(),
        url_normalization(input.url@) matches Err(m) ==> (r matches Err(AppError::MalformedInput(w))
            && w@ == m && final(store)@ == old(store)@),
        r matches Err(AppError::MalformedInput(w)) ==> url_normalization(input.url@)
            == Err::<Seq<char>, Seq<char>>(w@),
        url_normalization(input.url@) is Ok && has_slug(old(store)@, input.slug@) ==> (r matches Err(
            AppError::DuplicateSlug,
        ) && final(store)@ == old(store)@),
        r matches Err(AppError::DuplicateSlug) ==> (url_normalization(input.url@) is Ok && has_slug(
            old(store)@,
            input.slug@,
        ) && final(store)@ == old(store)@),
        url_normalization(input.url@) is Ok && !has_slug(old(store)@, input.slug@) ==> (r is Ok || (
        r matches Err(AppError::StorageFault(m)) && m@ == "duplicate id"@)),
        r matches Ok(e) ==> url_normalization(input.url@) == Ok::<Seq<char>, Seq<char>>(e.url@)
            && e.slug@ == input.slug@ && e.id@.len() == 36 && !has_slug(old(store)@, input.slug@)
            && final(store)@ == old(store)@.push(e@),
        r matches Err(AppError::StorageFault(m)) ==> (url_normalization(input.url@) is Ok
            && !has_slug(old(store)@, input.slug@) && m@ == "duplicate id"@ && final(store)@ == old(
            store,
        )@),
        !(r matches Err(AppError::NotFound)),
{
    let normalized = match parse_url(input.url.as_str()) {
        Ok(u) => u,
        Err(m) => {
            return Err(AppError::MalformedInput(m));
        },
    };
    let id = new_entry_id();
    store.create_entry(id, normalized, input.slug)
}

/// Resolve path: the URL to redirect to for a live slug, `NotFound`
/// otherwise. The table is never changed by a read.
pub fn handle_entry_get(store: &Store, slug: String) -> (r: Result<String, AppError>)
    requires
        store.wf(),
    ensures
        resolve_spec(store@, slug@) matches Some(u) ==> (r matches Ok(x) && x@ == u),
        resolve_spec(store@, slug@) is None ==> r matches Err(AppError::NotFound),
{
    store.get_entry_by_slug(slug)
}

/// Delete path: empty success when the slug was live, `NotFound` otherwise.
pub fn handle_entry_delete(store: &mut Store, slug: String) -> (r: Result<(), AppError>)
    requires
        old(store).wf(),
    ensures
        final(store).wf(),
        delete_spec(old(store)@, slug@) matches Some(t2) ==> (r matches Ok(u) && final(store)@
            == t2),
        delete_spec(old(store)@, slug@) is None ==> (r matches Err(AppError::NotFound)
            && final(store)@ == old(store)@),
{
    store.delete_entry_by_slug(slug)
}

/// Auth-gate decision for the write and delete paths: the request proceeds
/// exactly when the caller supplied a key and it matches the configured
/// secret.
pub fn api_key_auth(provided: Option<&String>, expected: &String) -> (r: bool)
    ensures
        r <==> (provided matches Some(k) && k@ == expected@),
{
    match provided {
        Some(k) => *k == *expected,
        None => false,
    }
}

} // verus!
