use noir_atelier::wardrobe::{after_delete, after_list, after_publication, after_save, before_own_list};

#[test]
fn a_saved_form_is_emptied_and_the_list_reloaded() {
    let step = after_save(Some(3), Ok(()));
    assert_eq!(step.status, "Запись обновлена.");
    assert!(step.reload && step.clear_form);
    let step = after_save(None, Ok(()));
    assert_eq!(step.status, "Черновик создан.");
    assert!(step.reload && step.clear_form);
}

#[test]
fn a_failed_save_keeps_the_form() {
    let step = after_save(None, Err("API вернул HTTP 401: Unauthorized".to_string()));
    assert_eq!(step.status, "API вернул HTTP 401: Unauthorized");
    assert!(!step.reload && !step.clear_form);
}

#[test]
fn publication_answers() {
    let step = after_publication(true, Ok(()));
    assert_eq!(step.status, "Запись снята с публикации.");
    assert!(step.reload && !step.clear_form);
    let step = after_publication(false, Ok(()));
    assert_eq!(step.status, "Запись опубликована.");
    let step = after_publication(false, Err("boom".to_string()));
    assert_eq!(step.status, "boom");
    assert!(!step.reload && !step.clear_form);
}

#[test]
fn delete_answers() {
    let step = after_delete(Ok(()));
    assert_eq!(step.status, "Запись удалена.");
    assert!(step.reload && !step.clear_form);
    let step = after_delete(Err("gone".to_string()));
    assert_eq!(step.status, "gone");
    assert!(!step.reload);
}

#[test]
fn list_answers() {
    assert_eq!(after_list(true, Ok(4)), "Ваших записей: 4.");
    assert_eq!(after_list(false, Ok(0)), "Опубликованных записей: 0.");
    assert_eq!(after_list(true, Err("offline".to_string())), "offline");
}

#[test]
fn own_list_needs_a_token() {
    assert_eq!(before_own_list(""), Some("Сначала выполните вход."));
    assert_eq!(before_own_list(" \t "), Some("Сначала выполните вход."));
    assert_eq!(before_own_list("abc"), None);
}
