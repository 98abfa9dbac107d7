//! Managing chores from forms: what a submitted form does to the store and
//! which of its fields are reported back as not valid.

use crate::calendar::{parsed_date, parsed_interval, read_date, read_interval, start_of_day_here};
use crate::db::ledger::Ledger;
use crate::db::types::{is_valid_name, name_is_valid, Chore, ChoreId, Event};
use crate::db::{is_created, updated, without, Db};
use crate::time::{Interval, Moment};
use vstd::prelude::*;

verus! {

/// The form that creates a chore.
#[derive(Debug)]
pub struct NewChoreForm {
    /// The name of the chore.
    pub name: String,
    /// The interval of the chore, as a text.
    pub interval: String,
    /// The date on which the chore was last done before it was entered, as a
    /// text, if any.
    pub history: Option<String>,
}

/// The form that changes or deletes a chore.
#[derive(Debug)]
pub struct EditChoreForm {
    /// The ID of the chore.
    pub id: i64,
    /// The new name of the chore.
    pub name: String,
    /// The new interval of the chore, as a text.
    pub interval: String,
    /// Present where the form was sent to save the chore.
    pub save: Option<String>,
    /// Present where the form was sent to delete the chore.
    pub delete: Option<String>,
}

/// A request to tell whether a text is a span of time.
#[derive(Debug)]
pub struct SpanReq {
    pub span: String,
}

/// What is reported back of a submitted form, field by field.
#[derive(Clone, Copy, Debug, PartialEq, Eq)]
pub struct RenderErrors {
    /// For the chore that was edited: its ID, whether its name was not
    /// valid, and whether its interval was not valid.
    pub edit_errors: Option<(ChoreId, bool, bool)>,
    /// The name of the chore to create was not valid.
    pub create_has_name_error: bool,
    /// The interval of the chore to create was not valid.
    pub create_has_interval_error: bool,
    /// Whether the chore was created, where the store was asked to.
    pub create_created_ok: Option<bool>,
}

/// The report of a form that nothing is wrong with.
pub open spec fn no_errors() -> RenderErrors {
    RenderErrors {
        edit_errors: None,
        create_has_name_error: false,
        create_has_interval_error: false,
        create_created_ok: None,
    }
}

impl Default for RenderErrors {
    fn default() -> (errors: Self)
        ensures
            errors == no_errors(),
    {
        RenderErrors {
            edit_errors: None,
            create_has_name_error: false,
            create_has_interval_error: false,
            create_created_ok: None,
        }
    }
}

/// Why a form could not be carried out to its end.
#[derive(Clone, Copy, Debug, PartialEq, Eq, Structural)]
pub enum ManagerError {
    /// The chore was created, but the date of its history has no first
    /// instant in the system's time zone.
    History,
}

/// Whether `span` is a span of time.
pub fn parse_span(query: &SpanReq) -> (valid: bool)
    ensures
        valid == (parsed_interval(query.span@) is Some),
{
    match read_interval(query.span.as_str()) {
        Ok(_) => true,
        Err(_) => false,
    }
}

/// The report of a form to create a chore whose fields are not valid, or
/// `None` where they are.
pub open spec fn create_errors(name: Seq<char>, interval: Seq<char>) -> Option<RenderErrors> {
    if is_valid_name(name) && parsed_interval(interval) is Some {
        None
    } else {
        Some(
            RenderErrors {
                edit_errors: None,
                create_has_name_error: !is_valid_name(name),
                create_has_interval_error: parsed_interval(interval) is None,
                create_created_ok: None,
            },
        )
    }
}

/// The report of whether the store created the chore.
pub open spec fn created_report(created: bool) -> RenderErrors {
    RenderErrors {
        edit_errors: None,
        create_has_name_error: false,
        create_has_interval_error: false,
        create_created_ok: Some(created),
    }
}

/// Creates the chore that `form` describes, without its history.
///
/// Returns the ID of the chore where it was created, and the report: the
/// fields that are not valid, or whether the store created the chore. The
/// store changes only where the chore is created.
pub fn create_from_form(db: &mut Db, form: &NewChoreForm) -> (outcome: (
    Option<ChoreId>,
    RenderErrors,
))
    requires
        old(db).wf(),
    ensures
        final(db).wf(),
        final(db).ledger() == old(db).ledger(),
        match create_errors(form.name@, form.interval@) {
            Some(errors) => {
                &&& outcome == (None::<ChoreId>, errors)
                &&& final(db).chores() == old(db).chores()
                &&& final(db).next_id() == old(db).next_id()
            },
            None => if old(db).next_id() == i64::MAX {
                &&& outcome == (None::<ChoreId>, created_report(false))
                &&& final(db).chores() == old(db).chores()
                &&& final(db).next_id() == old(db).next_id()
            } else {
                &&& outcome == (Some(ChoreId(old(db).next_id() as i64)), created_report(true))
                &&& final(db).next_id() == old(db).next_id() + 1
                &&& is_created(
                    old(db).chores(),
                    final(db).chores(),
                    ChoreId(old(db).next_id() as i64),
                    form.name@,
                    parsed_interval(form.interval@)->0,
                )
            },
        },
{
    let name_is_valid = name_is_valid(form.name.as_str());
    let interval = match read_interval(form.interval.as_str()) {
        Ok(interval) => Some(interval),
        Err(_) => None,
    };
    if !name_is_valid || interval.is_none() {
        return (
            None,
            RenderErrors {
                edit_errors: None,
                create_has_name_error: !name_is_valid,
                create_has_interval_error: interval.is_none(),
                create_created_ok: None,
            },
        );
    }
    let created = match db.create_chore(form.name.as_str(), interval.unwrap()) {
        Ok(id) => Some(id),
        Err(_) => None,
    };
    (
        created,
        RenderErrors {
            edit_errors: None,
            create_has_name_error: false,
            create_has_interval_error: false,
            create_created_ok: Some(created.is_some()),
        },
    )
}

/// Carries out the form that creates a chore.
///
/// The chore is created as [`create_from_form`] says. Where it was created
/// and the form gives a history that reads as a date, the first instant of
/// that date in the system's time zone is recorded as a completion of the
/// chore; where that date has no such instant the chore stays created and
/// the call fails. A history that does not read as a date is passed over.
pub fn new_chore(db: &mut Db, form: &NewChoreForm) -> (outcome: Result<RenderErrors, ManagerError>)
    requires
        old(db).wf(),
    ensures
        final(db).wf(),
        match create_errors(form.name@, form.interval@) {
            Some(errors) => {
                &&& outcome == Ok::<RenderErrors, ManagerError>(errors)
                &&& final(db).chores() == old(db).chores()
                &&& final(db).next_id() == old(db).next_id()
                &&& final(db).ledger() == old(db).ledger()
            },
            None => if old(db).next_id() == i64::MAX {
                &&& outcome == Ok::<RenderErrors, ManagerError>(created_report(false))
                &&& final(db).chores() == old(db).chores()
                &&& final(db).next_id() == old(db).next_id()
                &&& final(db).ledger() == old(db).ledger()
            } else {
                let id = ChoreId(old(db).next_id() as i64);
                &&& final(db).next_id() == old(db).next_id() + 1
                &&& is_created(
                    old(db).chores(),
                    final(db).chores(),
                    id,
                    form.name@,
                    parsed_interval(form.interval@)->0,
                )
                &&& outcome is Ok ==> outcome == Ok::<RenderErrors, ManagerError>(
                    created_report(true),
                )
                &&& outcome is Err ==> has_dated_history(*form) && final(db).ledger() == old(
                    db,
                ).ledger()
                &&& !has_dated_history(*form) ==> outcome is Ok && final(db).ledger() == old(
                    db,
                ).ledger()
                &&& has_dated_history(*form) && outcome is Ok ==> {
                    &&& final(db).ledger().events.len() == old(db).ledger().events.len() + 1
                    &&& final(db).ledger().events.last().chore_id == id
                    &&& final(db).ledger() == old(db).ledger().record(
                        final(db).ledger().events.last(),
                    )
                }
            },
        },
{
    let (created, errors) = create_from_form(db, form);
    if let Some(chore_id) = created {
        if let Some(history) = &form.history {
            match read_date(history.as_str()) {
                Ok(date) => {
                    match start_of_day_here(&date) {
                        Ok(moment) => {
                            db.record_chore_event_when(chore_id, moment);
                        },
                        Err(_) => {
                            return Err(ManagerError::History);
                        },
                    }
                },
                Err(_) => {},
            }
        }
    }
    Ok(errors)
}

/// Whether `form` gives a history that reads as a date.
pub open spec fn has_dated_history(form: NewChoreForm) -> bool {
    form.history matches Some(history) && parsed_date(history@) is Some
}

/// The report of a form to save a chore whose fields are not valid, or
/// `None` where they are.
pub open spec fn edit_errors(id: i64, name: Seq<char>, interval: Seq<char>) -> Option<
    RenderErrors,
> {
    if is_valid_name(name) && parsed_interval(interval) is Some {
        None
    } else {
        Some(
            RenderErrors {
                edit_errors: Some(
                    (ChoreId(id), !is_valid_name(name), parsed_interval(interval) is None),
                ),
                create_has_name_error: false,
                create_has_interval_error: false,
                create_created_ok: None,
            },
        )
    }
}

/// Saves the chore of `form`: replaces the name and the interval of the
/// chore with the ID of the form, where both fields are valid. Returns the
/// report of the fields that are not valid, or `None` where the chore was
/// saved.
pub fn handle_save(db: &mut Db, form: &EditChoreForm) -> (errors: Option<RenderErrors>)
    requires
        old(db).wf(),
    ensures
        final(db).wf(),
        final(db).ledger() == old(db).ledger(),
        final(db).next_id() == old(db).next_id(),
        errors == edit_errors(form.id, form.name@, form.interval@),
        errors is Some ==> final(db).chores() == old(db).chores(),
        errors is None ==> final(db).chores() == updated(
            old(db).chores(),
            Chore {
                id: ChoreId(form.id),
                name: form.name,
                interval: parsed_interval(form.interval@)->0,
            },
        ),
{
    let name_is_valid = name_is_valid(form.name.as_str());
    let interval = match read_interval(form.interval.as_str()) {
        Ok(interval) => Some(interval),
        Err(_) => None,
    };
    if !name_is_valid || interval.is_none() {
        return Some(
            RenderErrors {
                edit_errors: Some((ChoreId::from(form.id), !name_is_valid, interval.is_none())),
                create_has_name_error: false,
                create_has_interval_error: false,
                create_created_ok: None,
            },
        );
    }
    let chore = Chore {
        id: ChoreId::from(form.id),
        name: form.name.clone(),
        interval: interval.unwrap(),
    };
    db.update_chore(chore);
    None
}

/// Deletes the chore with the ID of `form`. Its events stay on record.
pub fn handle_delete(db: &mut Db, form: &EditChoreForm)
    requires
        old(db).wf(),
    ensures
        final(db).wf(),
        final(db).ledger() == old(db).ledger(),
        final(db).next_id() == old(db).next_id(),
        final(db).chores() == without(old(db).chores(), ChoreId(form.id)),
{
    db.delete_chore(ChoreId::from(form.id));
}

/// Carries out the form that changes or deletes a chore: saves the chore
/// where the form was sent to save, else deletes it where the form was sent
/// to delete, else does nothing.
pub fn edit_chore(db: &mut Db, form: &EditChoreForm) -> (errors: Option<RenderErrors>)
    requires
        old(db).wf(),
    ensures
        final(db).wf(),
        final(db).ledger() == old(db).ledger(),
        final(db).next_id() == old(db).next_id(),
        if form.save is Some {
            &&& errors == edit_errors(form.id, form.name@, form.interval@)
            &&& errors is Some ==> final(db).chores() == old(db).chores()
            &&& errors is None ==> final(db).chores() == updated(
                old(db).chores(),
                Chore {
                    id: ChoreId(form.id),
                    name: form.name,
                    interval: parsed_interval(form.interval@)->0,
                },
            )
        } else if form.delete is Some {
            &&& errors is None
            &&& final(db).chores() == without(old(db).chores(), ChoreId(form.id))
        } else {
            &&& errors is None
            &&& final(db).chores() == old(db).chores()
        },
{
    if form.save.is_some() {
        handle_save(db, form)
    } else if form.delete.is_some() {
        handle_delete(db, form);
        None
    } else {
        None
    }
}

} // verus!
