use vstd::prelude::*;
use vstd::string::*;

use crate::models::LoginResponse;
use crate::text::{decimal, decimal_string};

verus! {

/// Whether a character has Unicode's `White_Space` property, as
/// `char::is_whitespace` tells: U+0009 to U+000D, U+0020, U+0085, U+00A0,
/// U+1680, U+2000 to U+200A, U+2028, U+2029, U+202F, U+205F and U+3000.
pub open spec fn white_space(c: char) -> bool {
    let u = c as u32;
    (0x09 <= u <= 0x0D) || u == 0x20 || u == 0x85 || u == 0xA0 || u == 0x1680 || (0x2000 <= u
        <= 0x200A) || u == 0x2028 || u == 0x2029 || u == 0x202F || u == 0x205F || u == 0x3000
}

/// Whether a character has Unicode's `White_Space` property.
pub fn is_white_space(c: char) -> (b: bool)
    ensures
        b == white_space(c),
{
    let u = c as u32;
    (0x09 <= u && u <= 0x0D) || u == 0x20 || u == 0x85 || u == 0xA0 || u == 0x1680 || (0x2000 <= u
        && u <= 0x200A) || u == 0x2028 || u == 0x2029 || u == 0x202F || u == 0x205F || u == 0x3000
}

/// Whether a stored session token holds anything but white space, that is,
/// whether `token.trim()` is not empty.
pub fn is_signed_in(token: &str) -> (signed_in: bool)
    ensures
        signed_in == exists|i: int| 0 <= i < token@.len() && !white_space(#[trigger] token@[i]),
{
    let n = token.unicode_len();
    let mut i: usize = 0;
    while i < n
        invariant
            n == token@.len(),
            i <= n,
            forall|k: int| 0 <= k < i ==> white_space(#[trigger] token@[k]),
        decreases n - i,
    {
        if !is_white_space(token.get_char(i)) {
            return true;
        }
        i = i + 1;
    }
    false
}

/// The status line of the login form when the page opens.
pub fn signed_in_status(stored_email: Option<&str>) -> (status: String)
    ensures
        status@ == match stored_email {
            Some(e) => "Вы вошли как "@ + e@ + "."@,
            None => "Введите email и пароль для регистрации или входа."@,
        },
{
    match stored_email {
        Some(e) => {
            let mut status = String::from_str("Вы вошли как ");
            status.append(e);
            status.append(".");
            status
        },
        None => String::from_str("Введите email и пароль для регистрации или входа."),
    }
}

/// The status line after a successful login.
pub fn login_status(email: &str) -> (status: String)
    ensures
        status@ == "Вход выполнен: "@ + email@ + "."@,
{
    let mut status = String::from_str("Вход выполнен: ");
    status.append(email);
    status.append(".");
    status
}

/// The status line after a logout.
pub fn logout_status() -> (status: &'static str)
    ensures
        status@ == "Вы вышли из аккаунта."@,
{
    "Вы вышли из аккаунта."
}

/// `prefix`, the count in decimal, and a full stop.
fn counted(prefix: &str, count: usize) -> (status: String)
    ensures
        status@ == prefix@ + decimal(count as nat) + "."@,
{
    let mut status = String::from_str(prefix);
    status.append(decimal_string(count as u64).as_str());
    status.append(".");
    status
}

/// The status line of the gallery once the published outfits are loaded.
pub fn published_count_status(count: usize) -> (status: String)
    ensures
        status@ == "Опубликованных записей: "@ + decimal(count as nat) + "."@,
{
    counted("Опубликованных записей: ", count)
}

/// The status line of the private wardrobe once the user's outfits are loaded.
pub fn own_count_status(count: usize) -> (status: String)
    ensures
        status@ == "Ваших записей: "@ + decimal(count as nat) + "."@,
{
    counted("Ваших записей: ", count)
}

/// The status line of the catalogue: how many articles are shown and how many
/// are favourites.
pub fn catalog_status(shown: usize, favorites: usize) -> (status: String)
    ensures
        status@ == "Показано товаров: "@ + decimal(shown as nat) + ". В избранном: "@ + decimal(
            favorites as nat,
        ) + "."@,
{
    let mut status = String::from_str("Показано товаров: ");
    status.append(decimal_string(shown as u64).as_str());
    status.append(". В избранном: ");
    status.append(decimal_string(favorites as u64).as_str());
    status.append(".");
    status
}

/// The status line after the outfit form was saved: an edit or a new draft.
pub fn save_status(editing: Option<i64>) -> (status: &'static str)
    ensures
        status@ == if editing is Some {
            "Запись обновлена."@
        } else {
            "Черновик создан."@
        },
{
    match editing {
        Some(_) => "Запись обновлена.",
        None => "Черновик создан.",
    }
}

/// The status line after an outfit's publication button did its work.
pub fn publication_status(was_published: bool) -> (status: &'static str)
    ensures
        status@ == if was_published {
            "Запись снята с публикации."@
        } else {
            "Запись опубликована."@
        },
{
    if was_published {
        "Запись снята с публикации."
    } else {
        "Запись опубликована."
    }
}

/// The status line of the request draft form when the page opens.
pub fn draft_status(has_draft: bool) -> (status: &'static str)
    ensures
        status@ == if has_draft {
            "Загружен сохранённый черновик."@
        } else {
            "Черновик пока не сохранён."@
        },
{
    if has_draft {
        "Загружен сохранённый черновик."
    } else {
        "Черновик пока не сохранён."
    }
}

/// What the login form does once the API has answered a login: the status
/// line, the token and email to keep in local storage, and whether to move
/// on to the user's outfits.
#[derive(Clone, Debug, PartialEq)]
pub struct LoginStep {
    pub status: String,
    pub keep: Option<LoginResponse>,
    pub open_wardrobe: bool,
}

/// The step after a login: on success the token and email are kept, the login
/// reported and the user's outfits opened; on failure the error is shown.
pub fn after_login(outcome: Result<LoginResponse, String>) -> (step: LoginStep)
    ensures
        match outcome {
            Ok(r) => {
                &&& step.status@ == "Вход выполнен: "@ + r.email@ + "."@
                &&& step.keep == Some(r)
                &&& step.open_wardrobe
            },
            Err(e) => step.status@ == e@ && step.keep is None && !step.open_wardrobe,
        },
{
    match outcome {
        Ok(r) => {
            let status = login_status(r.email.as_str());
            LoginStep { status, keep: Some(r), open_wardrobe: true }
        },
        Err(e) => LoginStep { status: e, keep: None, open_wardrobe: false },
    }
}

/// The status line after a registration: the API's message, or the error.
pub fn after_register(outcome: Result<String, String>) -> (status: String)
    ensures
        status@ == match outcome {
            Ok(m) => m@,
            Err(e) => e@,
        },
{
    match outcome {
        Ok(m) => m,
        Err(e) => e,
    }
}

} // verus!
