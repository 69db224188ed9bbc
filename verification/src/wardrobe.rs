use vstd::prelude::*;
use vstd::string::*;

use crate::messages::{is_signed_in, own_count_status, publication_status, published_count_status, save_status, white_space};
use crate::text::decimal;

verus! {

/// What the outfit pages do once an answer of the API has arrived: the status
/// line to show, whether to load the list of outfits again, and whether to
/// empty the outfit form and leave edit mode.
#[derive(Clone, Debug, PartialEq)]
pub struct PageStep {
    pub status: String,
    pub reload: bool,
    pub clear_form: bool,
}

/// The step after the outfit form was sent (as an edit of `saved_as`, or as a
/// new draft): on success the form is emptied, the outcome shown and the list
/// reloaded; on failure the error is shown and the form kept.
pub fn after_save(saved_as: Option<i64>, outcome: Result<(), String>) -> (step: PageStep)
    ensures
        match outcome {
            Ok(_) => {
                &&& step.status@ == if saved_as is Some {
                    "Запись обновлена."@
                } else {
                    "Черновик создан."@
                }
                &&& step.reload
                &&& step.clear_form
            },
            Err(e) => step.status@ == e@ && !step.reload && !step.clear_form,
        },
{
    match outcome {
        Ok(_) => PageStep { status: String::from_str(save_status(saved_as)), reload: true, clear_form: true },
        Err(e) => PageStep { status: e, reload: false, clear_form: false },
    }
}

/// The step after an outfit's publication button was answered: on success the
/// outcome is shown and the list reloaded; on failure the error is shown. The
/// form stays as it is either way.
pub fn after_publication(was_published: bool, outcome: Result<(), String>) -> (step: PageStep)
    ensures
        match outcome {
            Ok(_) => {
                &&& step.status@ == if was_published {
                    "Запись снята с публикации."@
                } else {
                    "Запись опубликована."@
                }
                &&& step.reload
            },
            Err(e) => step.status@ == e@ && !step.reload,
        },
        !step.clear_form,
{
    match outcome {
        Ok(_) => PageStep {
            status: String::from_str(publication_status(was_published)),
            reload: true,
            clear_form: false,
        },
        Err(e) => PageStep { status: e, reload: false, clear_form: false },
    }
}

/// The step after an outfit was deleted: on success the deletion is shown and
/// the list reloaded; on failure the error is shown. The form stays as it is.
pub fn after_delete(outcome: Result<(), String>) -> (step: PageStep)
    ensures
        match outcome {
            Ok(_) => step.status@ == "Запись удалена."@ && step.reload,
            Err(e) => step.status@ == e@ && !step.reload,
        },
        !step.clear_form,
{
    match outcome {
        Ok(_) => PageStep { status: String::from_str("Запись удалена."), reload: true, clear_form: false },
        Err(e) => PageStep { status: e, reload: false, clear_form: false },
    }
}

/// The status line once a list of outfits has arrived (the published ones, or
/// the user's own): how many there are, or the error.
pub fn after_list(own: bool, outcome: Result<usize, String>) -> (status: String)
    ensures
        match outcome {
            Ok(count) => status@ == if own {
                "Ваших записей: "@ + decimal(count as nat) + "."@
            } else {
                "Опубликованных записей: "@ + decimal(count as nat) + "."@
            },
            Err(e) => status@ == e@,
        },
{
    match outcome {
        Ok(count) => if own {
            own_count_status(count)
        } else {
            published_count_status(count)
        },
        Err(e) => e,
    }
}

/// Whether the user's outfits can be loaded with the stored token: `None`
/// where the token holds anything but white space, else the status line that
/// asks to log in first.
pub fn before_own_list(token: &str) -> (refusal: Option<&'static str>)
    ensures
        refusal is None <==> exists|i: int| 0 <= i < token@.len() && !white_space(#[trigger] token@[i]),
        refusal matches Some(r) ==> r@ == "Сначала выполните вход."@,
{
    if is_signed_in(token) {
        None
    } else {
        Some("Сначала выполните вход.")
    }
}

} // verus!
