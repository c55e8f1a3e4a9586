//! Requests that logged-in users make: changing their record, locking,
//! unlocking and saving pages.

use vstd::prelude::*;
use crate::pagemap::PageMap;
use crate::wikifile::{is_revised_by, PageRevisionStruct};

verus! {

/// A request to change a user's record.
pub struct UserModify {
    pub user: String,
    pub password: String,
    pub new_password: String,
    pub new_password_check: String,
    pub comment: String,
}

/// A request to lock or unlock a page with a lock token.
pub struct Wikilock {
    pub page: String,
    pub lock: String,
}

/// The answer to a lock, unlock or save request.
#[derive(Debug, PartialEq, Eq, Structural, Clone, Copy)]
pub enum PageStatus {
    Success,
    NoRevision,
    NoLockOrPage,
    WrongLock,
    NoLock,
    WriteFailed,
    NoLockPage,
    AlreadyLocked,
    BadPage,
    LockMismatch,
    LockNotFound,
}

/// The HTTP status code of an answer.
pub open spec fn status_code(s: PageStatus) -> u16 {
    match s {
        PageStatus::Success => 200,
        PageStatus::NoRevision => 519,
        PageStatus::NoLockOrPage => 519,
        PageStatus::WrongLock => 520,
        PageStatus::NoLock => 521,
        PageStatus::WriteFailed => 522,
        PageStatus::NoLockPage => 519,
        PageStatus::AlreadyLocked => 520,
        PageStatus::BadPage => 540,
        PageStatus::LockMismatch => 540,
        PageStatus::LockNotFound => 540,
    }
}

/// The reason phrase of an answer.
pub open spec fn status_reason(s: PageStatus) -> Seq<char> {
    match s {
        PageStatus::Success => "OK"@,
        PageStatus::NoRevision => "no revision or previous revision"@,
        PageStatus::NoLockOrPage => "no lock or page"@,
        PageStatus::WrongLock => "wrong lock"@,
        PageStatus::NoLock => "no lock"@,
        PageStatus::WriteFailed => "failed to write"@,
        PageStatus::NoLockPage => "no lock page"@,
        PageStatus::AlreadyLocked => "already locked"@,
        PageStatus::BadPage => "bad page"@,
        PageStatus::LockMismatch => "lock doesn't match"@,
        PageStatus::LockNotFound => "lock not found"@,
    }
}

impl PageStatus {
    /// The HTTP status code of the answer.
    pub fn code(&self) -> (r: u16)
        ensures
            r == status_code(*self),
    {
        match self {
            PageStatus::Success => 200,
            PageStatus::NoRevision => 519,
            PageStatus::NoLockOrPage => 519,
            PageStatus::WrongLock => 520,
            PageStatus::NoLock => 521,
            PageStatus::WriteFailed => 522,
            PageStatus::NoLockPage => 519,
            PageStatus::AlreadyLocked => 520,
            PageStatus::BadPage => 540,
            PageStatus::LockMismatch => 540,
            PageStatus::LockNotFound => 540,
        }
    }

    /// The reason phrase of the answer.
    pub fn reason(&self) -> (r: String)
        ensures
            r@ == status_reason(*self),
    {
        match self {
            PageStatus::Success => "OK".to_owned(),
            PageStatus::NoRevision => "no revision or previous revision".to_owned(),
            PageStatus::NoLockOrPage => "no lock or page".to_owned(),
            PageStatus::WrongLock => "wrong lock".to_owned(),
            PageStatus::NoLock => "no lock".to_owned(),
            PageStatus::WriteFailed => "failed to write".to_owned(),
            PageStatus::NoLockPage => "no lock page".to_owned(),
            PageStatus::AlreadyLocked => "already locked".to_owned(),
            PageStatus::BadPage => "bad page".to_owned(),
            PageStatus::LockMismatch => "lock doesn't match".to_owned(),
            PageStatus::LockNotFound => "lock not found".to_owned(),
        }
    }
}

/// The answer to a lock request and the locks after it: a page and token
/// must be given, and a page that is locked stays as it is.
pub open spec fn lock_result(m: Map<Seq<char>, Seq<char>>, page: Seq<char>, lock: Seq<char>) -> (
    PageStatus,
    Map<Seq<char>, Seq<char>>,
) {
    if page.len() == 0 || lock.len() == 0 {
        (PageStatus::NoLockPage, m)
    } else if m.contains_key(page) {
        (PageStatus::AlreadyLocked, m)
    } else {
        (PageStatus::Success, m.insert(page, lock))
    }
}

/// The answer to an unlock request and the locks after it: only the
/// token that locked the page unlocks it.
pub open spec fn unlock_result(m: Map<Seq<char>, Seq<char>>, page: Seq<char>, lock: Seq<char>) -> (
    PageStatus,
    Map<Seq<char>, Seq<char>>,
) {
    if page.len() == 0 {
        (PageStatus::BadPage, m)
    } else if !m.contains_key(page) {
        (PageStatus::LockNotFound, m)
    } else if m[page] != lock {
        (PageStatus::LockMismatch, m)
    } else {
        (PageStatus::Success, m.remove(page))
    }
}

/// Whether a save may go ahead: revision numbers, page and token must be
/// given, and the page must be locked with that token.
pub open spec fn save_check(
    m: Map<Seq<char>, Seq<char>>,
    revision: Seq<char>,
    previous_revision: Seq<char>,
    page: Seq<char>,
    lock: Seq<char>,
) -> Result<(), PageStatus> {
    if revision.len() == 0 || previous_revision.len() == 0 {
        Err(PageStatus::NoRevision)
    } else if page.len() == 0 || lock.len() == 0 {
        Err(PageStatus::NoLockOrPage)
    } else if !m.contains_key(page) {
        Err(PageStatus::NoLock)
    } else if m[page] != lock {
        Err(PageStatus::WrongLock)
    } else {
        Ok(())
    }
}

/// Saves a wiki page, updating its revision information: checks the save
/// request against the page locks and, where it may go ahead, gives the
/// header to store with the page, which records `user` as the author and
/// `now` as the revision date. Writing the page, and the `WriteFailed`
/// answer where that fails, are the caller's.
pub fn rocket_route_wiki_save(
    lock_data: &PageMap,
    input: &PageRevisionStruct,
    user: &str,
    now: &str,
) -> (r: Result<PageRevisionStruct, PageStatus>)
    ensures
        match r {
            Ok(h) => save_check(
                lock_data@,
                input.revision@,
                input.previous_revision@,
                input.page@,
                input.lock@,
            ) is Ok && is_revised_by(*input, h, user@, now@),
            Err(s) => save_check(
                lock_data@,
                input.revision@,
                input.previous_revision@,
                input.page@,
                input.lock@,
            ) == Err::<(), PageStatus>(s),
        },
{
    if input.revision.as_str().is_empty() || input.previous_revision.as_str().is_empty() {
        return Err(PageStatus::NoRevision);
    }
    if input.page.as_str().is_empty() || input.lock.as_str().is_empty() {
        return Err(PageStatus::NoLockOrPage);
    }
    match lock_data.get(input.page.as_str()) {
        Some(lock_token) => {
            if *lock_token != input.lock {
                return Err(PageStatus::WrongLock);
            }
        },
        None => {
            return Err(PageStatus::NoLock);
        },
    }
    Ok(input.revised(user, now))
}

/// Locks the page of the request with its token; the page must not be
/// locked already.
pub fn rocket_route_user_lock(lock_data: &mut PageMap, input: &Wikilock) -> (r: PageStatus)
    ensures
        (r, final(lock_data)@) == lock_result(old(lock_data)@, input.page@, input.lock@),
{
    if input.page.as_str().is_empty() || input.lock.as_str().is_empty() {
        return PageStatus::NoLockPage;
    }
    if lock_data.contains_key(input.page.as_str()) {
        return PageStatus::AlreadyLocked;
    }
    lock_data.insert(input.page.as_str(), input.lock.as_str());
    PageStatus::Success
}

/// Unlocks the page of the request, which must be locked with its token.
pub fn rocket_route_user_unlock(lock_data: &mut PageMap, input: &Wikilock) -> (r: PageStatus)
    ensures
        (r, final(lock_data)@) == unlock_result(old(lock_data)@, input.page@, input.lock@),
{
    if input.page.as_str().is_empty() {
        return PageStatus::BadPage;
    }
    match lock_data.get(input.page.as_str()) {
        Some(ll) => {
            if *ll != input.lock {
                return PageStatus::LockMismatch;
            }
        },
        None => {
            return PageStatus::LockNotFound;
        },
    }
    lock_data.remove(input.page.as_str());
    PageStatus::Success
}

/// Locking a page that is not locked and then unlocking it with the same
/// token succeeds both times and leaves the locks as they were.
pub proof fn law_lock_then_unlock(m: Map<Seq<char>, Seq<char>>, page: Seq<char>, lock: Seq<char>)
    requires
        page.len() > 0,
        lock.len() > 0,
        !m.contains_key(page),
    ensures
        lock_result(m, page, lock).0 == PageStatus::Success,
        unlock_result(lock_result(m, page, lock).1, page, lock) == (PageStatus::Success, m),
{
    assert(m.insert(page, lock).remove(page) =~= m);
}

/// A locked page cannot be locked again, with any token, and the refusal
/// leaves the locks as they were.
pub proof fn law_lock_is_exclusive(
    m: Map<Seq<char>, Seq<char>>,
    page: Seq<char>,
    lock: Seq<char>,
    other: Seq<char>,
)
    requires
        lock_result(m, page, lock).0 == PageStatus::Success,
        other.len() > 0,
    ensures
        lock_result(lock_result(m, page, lock).1, page, other) == (
            PageStatus::AlreadyLocked,
            lock_result(m, page, lock).1,
        ),
{
}

/// After a page is locked, a save under the lock's token goes ahead and a
/// save under any other token is refused as holding the wrong lock.
pub proof fn law_save_needs_the_lock(
    m: Map<Seq<char>, Seq<char>>,
    page: Seq<char>,
    lock: Seq<char>,
    other: Seq<char>,
    revision: Seq<char>,
    previous_revision: Seq<char>,
)
    requires
        lock_result(m, page, lock).0 == PageStatus::Success,
        revision.len() > 0,
        previous_revision.len() > 0,
        other.len() > 0,
        other != lock,
    ensures
        save_check(lock_result(m, page, lock).1, revision, previous_revision, page, lock) == Ok::<
            (),
            PageStatus,
        >(()),
        save_check(lock_result(m, page, lock).1, revision, previous_revision, page, other) == Err::<
            (),
            PageStatus,
        >(PageStatus::WrongLock),
{
}

/// An unlock under a token other than the page's leaves the lock in place.
pub proof fn law_unlock_needs_the_lock(
    m: Map<Seq<char>, Seq<char>>,
    page: Seq<char>,
    other: Seq<char>,
)
    requires
        page.len() > 0,
        m.contains_key(page),
        m[page] != other,
    ensures
        unlock_result(m, page, other) == (PageStatus::LockMismatch, m),
{
}

/// Only a request that succeeded answers 200; every other answer is an
/// error status of the 5xx range.
pub proof fn law_only_success_answers_200(s: PageStatus)
    ensures
        (status_code(s) == 200) <==> (s == PageStatus::Success),
        s != PageStatus::Success ==> 500 <= status_code(s) < 600,
{
}

/// A lock request refused because the page is locked answers 520, and a
/// lock request without page or token answers 519; neither changes the locks.
pub proof fn law_lock_refusals(m: Map<Seq<char>, Seq<char>>, page: Seq<char>, lock: Seq<char>)
    ensures
        page.len() > 0 && lock.len() > 0 && m.contains_key(page) ==> status_code(
            lock_result(m, page, lock).0,
        ) == 520,
        page.len() == 0 || lock.len() == 0 ==> status_code(lock_result(m, page, lock).0) == 519,
        lock_result(m, page, lock).0 != PageStatus::Success ==> lock_result(m, page, lock).1 == m,
        lock_result(m, page, lock).0 == PageStatus::Success ==> lock_result(m, page, lock).1
            == m.insert(page, lock),
{
}

/// Every refused unlock request answers 540 and leaves the locks as they were.
pub proof fn law_unlock_refusals(m: Map<Seq<char>, Seq<char>>, page: Seq<char>, lock: Seq<char>)
    ensures
        unlock_result(m, page, lock).0 != PageStatus::Success ==> status_code(
            unlock_result(m, page, lock).0,
        ) == 540 && unlock_result(m, page, lock).1 == m,
        unlock_result(m, page, lock).0 == PageStatus::Success ==> m.contains_key(page)
            && m[page] == lock && unlock_result(m, page, lock).1 == m.remove(page),
{
}

/// A save goes ahead exactly where revision numbers, page and token are
/// given and the page is locked with that token; a refusal answers 519,
/// 520 or 521.
pub proof fn law_save_check(
    m: Map<Seq<char>, Seq<char>>,
    revision: Seq<char>,
    previous_revision: Seq<char>,
    page: Seq<char>,
    lock: Seq<char>,
)
    ensures
        save_check(m, revision, previous_revision, page, lock) is Ok <==> (revision.len() > 0
            && previous_revision.len() > 0 && page.len() > 0 && lock.len() > 0 && m.contains_key(
            page,
        ) && m[page] == lock),
        save_check(m, revision, previous_revision, page, lock) matches Err(e) ==> 519
            <= status_code(e) <= 521,
{
}

} // verus!
