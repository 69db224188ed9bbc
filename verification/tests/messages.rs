use noir_atelier::models::LoginResponse;
use noir_atelier::messages::{
    after_login, after_register,
    catalog_status, draft_status, is_signed_in, login_status, logout_status, own_count_status,
    publication_status, published_count_status, save_status, signed_in_status,
};

#[test]
fn blank_tokens_are_no_session() {
    assert!(!is_signed_in(""));
    assert!(!is_signed_in("   "));
    assert!(!is_signed_in("\t\n\u{3000}"));
    assert!(is_signed_in(" eyJhbGciOi "));
    assert!(is_signed_in("x"));
}

#[test]
fn login_form_statuses() {
    assert_eq!(signed_in_status(Some("a@b.c")), "Вы вошли как a@b.c.");
    assert_eq!(signed_in_status(Some("")), "Вы вошли как .");
    assert_eq!(signed_in_status(None), "Введите email и пароль для регистрации или входа.");
    assert_eq!(login_status("student@example.com"), "Вход выполнен: student@example.com.");
    assert_eq!(logout_status(), "Вы вышли из аккаунта.");
}

#[test]
fn counting_statuses() {
    assert_eq!(published_count_status(0), "Опубликованных записей: 0.");
    assert_eq!(published_count_status(12), "Опубликованных записей: 12.");
    assert_eq!(own_count_status(3), "Ваших записей: 3.");
    assert_eq!(catalog_status(6, 2), "Показано товаров: 6. В избранном: 2.");
}

#[test]
fn outcome_statuses() {
    assert_eq!(save_status(Some(4)), "Запись обновлена.");
    assert_eq!(save_status(None), "Черновик создан.");
    assert_eq!(publication_status(true), "Запись снята с публикации.");
    assert_eq!(publication_status(false), "Запись опубликована.");
    assert_eq!(draft_status(true), "Загружен сохранённый черновик.");
    assert_eq!(draft_status(false), "Черновик пока не сохранён.");
}

#[test]
fn white_space_agrees_with_std_on_every_char() {
    for c in (0u32..=0x10FFFF).filter_map(char::from_u32) {
        assert_eq!(noir_atelier::messages::is_white_space(c), c.is_whitespace(), "{:#x}", c as u32);
    }
}

#[test]
fn login_and_registration_answers() {
    let r = LoginResponse { token: "t0k".to_string(), email: "a@b.c".to_string() };
    let step = after_login(Ok(r.clone()));
    assert_eq!(step.status, "Вход выполнен: a@b.c.");
    assert_eq!(step.keep, Some(r));
    assert!(step.open_wardrobe);
    let step = after_login(Err("API вернул HTTP 401: Bad".to_string()));
    assert_eq!(step.status, "API вернул HTTP 401: Bad");
    assert_eq!(step.keep, None);
    assert!(!step.open_wardrobe);
    assert_eq!(after_register(Ok("Пользователь создан".to_string())), "Пользователь создан");
    assert_eq!(after_register(Err("x".to_string())), "x");
}
