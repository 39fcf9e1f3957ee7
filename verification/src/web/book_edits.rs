//! Editing a book's title, series, genres and authors from the admin pages:
//! the checks and their order, between the database steps.
use vstd::prelude::*;
use crate::parsers::{detect_lang_code, lang_code_spec};
use crate::text::{from_chars, to_uppercase, trim, trim_str, unicode_uppercase};
use crate::web::admin::{validate_book_title, validate_title_spec};

verus! {

/// Where an edit stands.
#[derive(Debug, Clone, Copy, PartialEq, Eq, Structural)]
pub enum EditState {
    Start,
    /// Checking that the book exists.
    CheckingBook,
    /// Writing the change.
    Writing,
    Done,
}

#[derive(Debug, Clone, Copy, PartialEq, Eq, Structural)]
pub enum EditEvent {
    /// Whether the CSRF token matched and whether the submitted value is
    /// acceptable (always for series and genres).
    Begin { csrf_ok: bool, valid: bool },
    BookChecked { found: bool },
    Written { ok: bool },
}

/// What to do next; the last four answer the request.
#[derive(Debug, Clone, Copy, PartialEq, Eq, Structural)]
pub enum EditAction {
    CheckBook,
    Write,
    /// Answer with the updated values.
    Respond,
    /// 403: the CSRF token did not match.
    Forbidden,
    /// 400: the value is not acceptable.
    BadRequest,
    /// 404: no such book.
    NotFound,
    /// 500: writing failed.
    ServerError,
}

/// One step of an edit: the CSRF token is checked first, then the value,
/// then that the book exists; then the change is written.
pub open spec fn edit_step_spec(state: EditState, event: EditEvent) -> (EditState, EditAction) {
    match (state, event) {
        (EditState::Start, EditEvent::Begin { csrf_ok, valid }) => if !csrf_ok {
            (EditState::Done, EditAction::Forbidden)
        } else if !valid {
            (EditState::Done, EditAction::BadRequest)
        } else {
            (EditState::CheckingBook, EditAction::CheckBook)
        },
        (EditState::CheckingBook, EditEvent::BookChecked { found }) => if found {
            (EditState::Writing, EditAction::Write)
        } else {
            (EditState::Done, EditAction::NotFound)
        },
        (EditState::Writing, EditEvent::Written { ok }) => if ok {
            (EditState::Done, EditAction::Respond)
        } else {
            (EditState::Done, EditAction::ServerError)
        },
        _ => (EditState::Done, EditAction::ServerError),
    }
}

pub fn edit_step(state: EditState, event: EditEvent) -> (r: (EditState, EditAction))
    ensures
        r == edit_step_spec(state, event),
{
    match (state, event) {
        (EditState::Start, EditEvent::Begin { csrf_ok, valid }) => if !csrf_ok {
            (EditState::Done, EditAction::Forbidden)
        } else if !valid {
            (EditState::Done, EditAction::BadRequest)
        } else {
            (EditState::CheckingBook, EditAction::CheckBook)
        },
        (EditState::CheckingBook, EditEvent::BookChecked { found }) => if found {
            (EditState::Writing, EditAction::Write)
        } else {
            (EditState::Done, EditAction::NotFound)
        },
        (EditState::Writing, EditEvent::Written { ok }) => if ok {
            (EditState::Done, EditAction::Respond)
        } else {
            (EditState::Done, EditAction::ServerError)
        },
        _ => (EditState::Done, EditAction::ServerError),
    }
}

/// A book is changed only after its CSRF token, its value and its existence
/// were all checked: every step that writes comes from the check of the book,
/// which only a matching token and an acceptable value lead to.
pub proof fn lemma_edit_writes_only_after_checks(s: EditState, e: EditEvent)
    ensures
        edit_step_spec(s, e).1 == EditAction::Write ==> (s == EditState::CheckingBook && e
            == (EditEvent::BookChecked { found: true })),
        edit_step_spec(s, e).1 == EditAction::CheckBook ==> (s == EditState::Start && e
            == (EditEvent::Begin { csrf_ok: true, valid: true })),
{
}

/// The stored fields of a new title: the validated title, its upper-cased
/// search form and its script group.
pub struct TitleUpdate {
    pub title: String,
    pub search_title: String,
    pub lang_code: i32,
}

/// The fields for a new title, or the reason it is refused
/// (`validate_book_title`).
pub fn title_update(title: &str) -> (r: Result<TitleUpdate, &'static str>)
    ensures
        match validate_title_spec(title@) {
            Ok(t) => r matches Ok(u) && u.title@ == t && u.search_title@ == unicode_uppercase(t)
                && u.lang_code == lang_code_spec(t),
            Err(msg) => r matches Err(m) && m@ == msg,
        },
{
    match validate_book_title(title) {
        Ok(t) => {
            let search_title = to_uppercase(t.as_str());
            let lang_code = detect_lang_code(t.as_str());
            Ok(TitleUpdate { title: t, search_title, lang_code })
        },
        Err(e) => Err(e),
    }
}

/// The series name of a series edit, trimmed.
pub fn series_name(name: &str) -> (r: String)
    ensures
        r@ == trim(name@),
{
    let t = trim_str(name);
    from_chars(t.as_slice())
}

// ---------------------------------------------------------------------------
// Authors
// ---------------------------------------------------------------------------

/// Where an author edit stands; `ids` are the authors chosen so far.
pub enum AuthorEditState {
    Start,
    CheckingBook,
    /// Finding or creating the author named by new name `index`.
    Ensuring { index: usize },
    /// Finding or creating the author `Unknown`, no author being chosen.
    EnsuringFallback,
    Writing,
    Done,
}

#[derive(Debug, Clone, Copy, PartialEq, Eq, Structural)]
pub enum AuthorEditEvent {
    Begin { csrf_ok: bool },
    BookChecked { found: bool },
    /// The id of the author found or created, or `None` when that failed.
    Ensured { id: Option<i64> },
    Written { ok: bool },
}

pub enum AuthorEditAction {
    CheckBook,
    /// Find or create the author of this (trimmed) name.
    EnsureAuthor { name: String },
    /// Find or create the author `Unknown`.
    EnsureFallback,
    /// Set the book's authors to these.
    Write { ids: Vec<i64> },
    Respond,
    Forbidden,
    NotFound,
    ServerError,
}

pub enum AuthorEditActionView {
    CheckBook,
    EnsureAuthor { name: Seq<char> },
    EnsureFallback,
    Write { ids: Seq<i64> },
    Respond,
    Forbidden,
    NotFound,
    ServerError,
}

impl View for AuthorEditAction {
    type V = AuthorEditActionView;

    open spec fn view(&self) -> AuthorEditActionView {
        match *self {
            AuthorEditAction::CheckBook => AuthorEditActionView::CheckBook,
            AuthorEditAction::EnsureAuthor { name } => AuthorEditActionView::EnsureAuthor { name: name@ },
            AuthorEditAction::EnsureFallback => AuthorEditActionView::EnsureFallback,
            AuthorEditAction::Write { ids } => AuthorEditActionView::Write { ids: ids@ },
            AuthorEditAction::Respond => AuthorEditActionView::Respond,
            AuthorEditAction::Forbidden => AuthorEditActionView::Forbidden,
            AuthorEditAction::NotFound => AuthorEditActionView::NotFound,
            AuthorEditAction::ServerError => AuthorEditActionView::ServerError,
        }
    }
}

/// The first new name at or after `from` that is not blank.
pub open spec fn next_name(names: Seq<Seq<char>>, from: int) -> Option<int>
    decreases names.len() - from,
{
    if from >= names.len() || from < 0 {
        None
    } else if trim(names[from]).len() > 0 {
        Some(from)
    } else {
        next_name(names, from + 1)
    }
}

proof fn lemma_next_name_bounds(names: Seq<Seq<char>>, from: int)
    ensures
        next_name(names, from) matches Some(k) ==> from <= k < names.len() && trim(names[k]).len() > 0,
    decreases names.len() - from,
{
    if from >= 0 && from < names.len() && trim(names[from]).len() == 0 {
        lemma_next_name_bounds(names, from + 1);
    }
}

/// `ids` with `id` added unless it is there.
pub open spec fn add_id(ids: Seq<i64>, id: i64) -> Seq<i64> {
    if ids.contains(id) {
        ids
    } else {
        ids.push(id)
    }
}

/// After the new names from `from` on are looked at: the next name to ensure,
/// or the fallback when no author is chosen, or writing the authors.
pub open spec fn author_continue(names: Seq<Seq<char>>, from: int, ids: Seq<i64>) -> (
    Option<usize>,
    AuthorEditActionView,
) {
    match next_name(names, from) {
        Some(k) => (Some(k as usize), AuthorEditActionView::EnsureAuthor { name: trim(names[k]) }),
        None => if ids.len() == 0 {
            (None, AuthorEditActionView::EnsureFallback)
        } else {
            (None, AuthorEditActionView::Write { ids })
        },
    }
}

/// The state of an author edit, as the step specification sees it.
pub enum AuthorEditStateView {
    Start,
    CheckingBook,
    Ensuring { index: usize },
    EnsuringFallback,
    Writing,
    Done,
}

pub open spec fn author_state_view(s: AuthorEditState) -> AuthorEditStateView {
    match s {
        AuthorEditState::Start => AuthorEditStateView::Start,
        AuthorEditState::CheckingBook => AuthorEditStateView::CheckingBook,
        AuthorEditState::Ensuring { index } => AuthorEditStateView::Ensuring { index },
        AuthorEditState::EnsuringFallback => AuthorEditStateView::EnsuringFallback,
        AuthorEditState::Writing => AuthorEditStateView::Writing,
        AuthorEditState::Done => AuthorEditStateView::Done,
    }
}

pub open spec fn after_ensure(names: Seq<Seq<char>>, from: int, ids: Seq<i64>) -> (AuthorEditStateView, Seq<i64>, AuthorEditActionView) {
    let (k, a) = author_continue(names, from, ids);
    (
        match k {
            Some(i) => AuthorEditStateView::Ensuring { index: i },
            None => if ids.len() == 0 {
                AuthorEditStateView::EnsuringFallback
            } else {
                AuthorEditStateView::Writing
            },
        },
        ids,
        a,
    )
}

/// One step of editing a book's authors: after the CSRF token and the
/// book's existence, each non-blank new name (trimmed) is found or created
/// and its author added to the chosen ones unless already chosen (a failure
/// skips the name); with no author chosen, `Unknown` is; then the authors are
/// written.
pub open spec fn author_edit_spec(
    names: Seq<Seq<char>>,
    state: AuthorEditStateView,
    ids: Seq<i64>,
    event: AuthorEditEvent,
) -> (AuthorEditStateView, Seq<i64>, AuthorEditActionView) {
    let fail = (AuthorEditStateView::Done, ids, AuthorEditActionView::ServerError);
    match (state, event) {
        (AuthorEditStateView::Start, AuthorEditEvent::Begin { csrf_ok }) => if csrf_ok {
            (AuthorEditStateView::CheckingBook, ids, AuthorEditActionView::CheckBook)
        } else {
            (AuthorEditStateView::Done, ids, AuthorEditActionView::Forbidden)
        },
        (AuthorEditStateView::CheckingBook, AuthorEditEvent::BookChecked { found }) => if found {
            after_ensure(names, 0, ids)
        } else {
            (AuthorEditStateView::Done, ids, AuthorEditActionView::NotFound)
        },
        (AuthorEditStateView::Ensuring { index }, AuthorEditEvent::Ensured { id }) => after_ensure(
            names,
            index + 1,
            match id {
                Some(x) => add_id(ids, x),
                None => ids,
            },
        ),
        (AuthorEditStateView::EnsuringFallback, AuthorEditEvent::Ensured { id }) => match id {
            Some(x) => (AuthorEditStateView::Writing, seq![x], AuthorEditActionView::Write { ids: seq![x] }),
            None => fail,
        },
        (AuthorEditStateView::Writing, AuthorEditEvent::Written { ok }) => if ok {
            (AuthorEditStateView::Done, ids, AuthorEditActionView::Respond)
        } else {
            fail
        },
        _ => fail,
    }
}

fn find_next_name(names: &Vec<String>, from: usize) -> (r: Option<(usize, String)>)
    ensures
        match next_name(crate::parsers::string_views(names@), from as int) {
            Some(k) => r matches Some((i, t)) && i == k && t@ == trim(names@[k]@),
            None => r is None,
        },
{
    let ghost nv = crate::parsers::string_views(names@);
    let mut i = from;
    while i < names.len()
        invariant
            from <= i,
            nv == crate::parsers::string_views(names@),
            next_name(nv, from as int) == next_name(nv, i as int),
        decreases names.len() - i,
    {
        let t = trim_str(names[i].as_str());
        proof {
            assert(nv[i as int] == names@[i as int]@);
        }
        if t.len() > 0 {
            return Some((i, from_chars(t.as_slice())));
        }
        i += 1;
    }
    None
}

fn contains_id(ids: &Vec<i64>, id: i64) -> (r: bool)
    ensures
        r == ids@.contains(id),
{
    let mut i: usize = 0;
    while i < ids.len()
        invariant
            i <= ids.len(),
            forall|j: int| 0 <= j < i ==> ids@[j] != id,
        decreases ids.len() - i,
    {
        if ids[i] == id {
            return true;
        }
        i += 1;
    }
    false
}

fn copy_ids(ids: &Vec<i64>) -> (r: Vec<i64>)
    ensures
        r@ == ids@,
{
    let mut r: Vec<i64> = Vec::new();
    let mut i: usize = 0;
    while i < ids.len()
        invariant
            i <= ids.len(),
            r@ == ids@.take(i as int),
        decreases ids.len() - i,
    {
        r.push(ids[i]);
        proof {
            assert(ids@.take(i + 1) =~= ids@.take(i as int).push(ids@[i as int]));
        }
        i += 1;
    }
    proof {
        assert(ids@.take(ids.len() as int) =~= ids@);
    }
    r
}

fn continue_after(names: &Vec<String>, from: usize, ids: Vec<i64>) -> (r: (AuthorEditState, Vec<i64>, AuthorEditAction))
    ensures
        (author_state_view(r.0), r.1@, r.2@) == after_ensure(
            crate::parsers::string_views(names@),
            from as int,
            ids@,
        ),
{
    let ghost nv = crate::parsers::string_views(names@);
    match find_next_name(names, from) {
        Some((k, name)) => {
            proof {
                lemma_next_name_bounds(nv, from as int);
                assert(nv[k as int] == names@[k as int]@);
                assert(next_name(nv, from as int) == Some(k as int));
            }
            (AuthorEditState::Ensuring { index: k }, ids, AuthorEditAction::EnsureAuthor { name })
        },
        None => if ids.len() == 0 {
            (AuthorEditState::EnsuringFallback, ids, AuthorEditAction::EnsureFallback)
        } else {
            let w = copy_ids(&ids);
            (AuthorEditState::Writing, ids, AuthorEditAction::Write { ids: w })
        },
    }
}

/// One step of editing a book's authors: `new_names` are the submitted new
/// author names, `ids` the authors chosen so far (the submitted ids at first).
pub fn author_edit_step(
    new_names: &Vec<String>,
    state: AuthorEditState,
    ids: Vec<i64>,
    event: AuthorEditEvent,
) -> (r: (AuthorEditState, Vec<i64>, AuthorEditAction))
    requires
        state matches AuthorEditState::Ensuring { index } ==> index < usize::MAX,
    ensures
        (author_state_view(r.0), r.1@, r.2@) == author_edit_spec(
            crate::parsers::string_views(new_names@),
            author_state_view(state),
            ids@,
            event,
        ),
{
    match (state, event) {
        (AuthorEditState::Start, AuthorEditEvent::Begin { csrf_ok }) => if csrf_ok {
            (AuthorEditState::CheckingBook, ids, AuthorEditAction::CheckBook)
        } else {
            (AuthorEditState::Done, ids, AuthorEditAction::Forbidden)
        },
        (AuthorEditState::CheckingBook, AuthorEditEvent::BookChecked { found }) => if found {
            continue_after(new_names, 0, ids)
        } else {
            (AuthorEditState::Done, ids, AuthorEditAction::NotFound)
        },
        (AuthorEditState::Ensuring { index }, AuthorEditEvent::Ensured { id }) => {
            let mut chosen = ids;
            if let Some(x) = id {
                if !contains_id(&chosen, x) {
                    chosen.push(x);
                }
            }
            continue_after(new_names, index + 1, chosen)
        },
        (AuthorEditState::EnsuringFallback, AuthorEditEvent::Ensured { id }) => match id {
            Some(x) => {
                let mut one: Vec<i64> = Vec::new();
                one.push(x);
                let w = copy_ids(&one);
                proof {
                    assert(one@ =~= seq![x]);
                }
                (AuthorEditState::Writing, one, AuthorEditAction::Write { ids: w })
            },
            None => (AuthorEditState::Done, ids, AuthorEditAction::ServerError),
        },
        (AuthorEditState::Writing, AuthorEditEvent::Written { ok }) => if ok {
            (AuthorEditState::Done, ids, AuthorEditAction::Respond)
        } else {
            (AuthorEditState::Done, ids, AuthorEditAction::ServerError)
        },
        _ => (AuthorEditState::Done, ids, AuthorEditAction::ServerError),
    }
}

/// A book's authors are written only when at least one is chosen.
pub proof fn lemma_author_write_nonempty(
    names: Seq<Seq<char>>,
    s: AuthorEditStateView,
    ids: Seq<i64>,
    e: AuthorEditEvent,
)
    ensures
        author_edit_spec(names, s, ids, e).2 matches AuthorEditActionView::Write { ids: w } ==> w.len()
            > 0,
{
}

} // verus!
