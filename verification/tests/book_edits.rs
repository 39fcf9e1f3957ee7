use ropds::web::book_edits::{
    author_edit_step, edit_step, series_name, title_update, AuthorEditAction, AuthorEditEvent,
    AuthorEditState, EditAction, EditEvent, EditState,
};

#[test]
fn edits_check_token_value_and_book_in_order() {
    assert_eq!(
        edit_step(EditState::Start, EditEvent::Begin { csrf_ok: false, valid: true }),
        (EditState::Done, EditAction::Forbidden)
    );
    assert_eq!(
        edit_step(EditState::Start, EditEvent::Begin { csrf_ok: true, valid: false }),
        (EditState::Done, EditAction::BadRequest)
    );
    let (s, a) = edit_step(EditState::Start, EditEvent::Begin { csrf_ok: true, valid: true });
    assert_eq!(a, EditAction::CheckBook);
    assert_eq!(edit_step(s, EditEvent::BookChecked { found: false }).1, EditAction::NotFound);
    let (s, a) = edit_step(s, EditEvent::BookChecked { found: true });
    assert_eq!(a, EditAction::Write);
    assert_eq!(edit_step(s, EditEvent::Written { ok: true }).1, EditAction::Respond);
    assert_eq!(edit_step(s, EditEvent::Written { ok: false }).1, EditAction::ServerError);
}

#[test]
fn title_updates() {
    match title_update("  Война и мир ") {
        Ok(u) => {
            assert_eq!(u.title, "Война и мир");
            assert_eq!(u.search_title, "ВОЙНА И МИР");
            assert_eq!(u.lang_code, 1);
        }
        Err(_) => panic!("a plain title is accepted"),
    }
    assert!(matches!(title_update("   "), Err("title_empty")));
    assert!(matches!(title_update("a\u{7}b"), Err("title_invalid")));
    assert_eq!(series_name("  Foundation "), "Foundation");
}

#[test]
fn author_edit_adds_new_names_once_and_falls_back_to_unknown() {
    let names = vec!["  ".to_string(), " Isaac Asimov ".to_string(), "Arthur Clarke".to_string()];
    let (s, ids, a) = author_edit_step(&names, AuthorEditState::Start, vec![3], AuthorEditEvent::Begin { csrf_ok: true });
    assert!(matches!(a, AuthorEditAction::CheckBook));
    let (s, ids, a) = author_edit_step(&names, s, ids, AuthorEditEvent::BookChecked { found: true });
    match &a {
        AuthorEditAction::EnsureAuthor { name } => assert_eq!(name, "Isaac Asimov"),
        _ => panic!("the first non-blank name is ensured"),
    }
    let (s, ids, a) = author_edit_step(&names, s, ids, AuthorEditEvent::Ensured { id: Some(3) });
    match &a {
        AuthorEditAction::EnsureAuthor { name } => assert_eq!(name, "Arthur Clarke"),
        _ => panic!("the next name is ensured"),
    }
    let (s, ids, a) = author_edit_step(&names, s, ids, AuthorEditEvent::Ensured { id: Some(8) });
    match &a {
        AuthorEditAction::Write { ids } => assert_eq!(ids, &vec![3, 8]),
        _ => panic!("the authors are written"),
    }
    let (_, _, a) = author_edit_step(&names, s, ids, AuthorEditEvent::Written { ok: true });
    assert!(matches!(a, AuthorEditAction::Respond));

    let none: Vec<String> = Vec::new();
    let (s, ids, a) = author_edit_step(&none, AuthorEditState::CheckingBook, Vec::new(), AuthorEditEvent::BookChecked { found: true });
    assert!(matches!(a, AuthorEditAction::EnsureFallback));
    let (_, _, a) = author_edit_step(&none, s, ids, AuthorEditEvent::Ensured { id: Some(1) });
    match &a {
        AuthorEditAction::Write { ids } => assert_eq!(ids, &vec![1]),
        _ => panic!("the fallback author is written"),
    }
}
