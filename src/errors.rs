//! The errors of form handling and of rebuilding records from forms.
use vstd::prelude::*;
use vstd::string::*;

verus! {

/// What went wrong with a form or one of its fields. Each variant that
/// concerns one field carries its name.
#[derive(Debug)]
pub enum FormError {
    ChoiceFieldNotFound(String),
    FieldNotFound(String),
    IncorrectType(String),
    InvalidValue(String),
    MalformedField(String),
    MalformedForm,
    RequiredFieldEmpty(String),
}

/// A `FormError` with its field name as characters.
pub enum FormErrorView {
    ChoiceFieldNotFound(Seq<char>),
    FieldNotFound(Seq<char>),
    IncorrectType(Seq<char>),
    InvalidValue(Seq<char>),
    MalformedField(Seq<char>),
    MalformedForm,
    RequiredFieldEmpty(Seq<char>),
}

impl View for FormError {
    type V = FormErrorView;

    open spec fn view(&self) -> FormErrorView {
        match self {
            FormError::ChoiceFieldNotFound(n) => FormErrorView::ChoiceFieldNotFound(n@),
            FormError::FieldNotFound(n) => FormErrorView::FieldNotFound(n@),
            FormError::IncorrectType(n) => FormErrorView::IncorrectType(n@),
            FormError::InvalidValue(n) => FormErrorView::InvalidValue(n@),
            FormError::MalformedField(n) => FormErrorView::MalformedField(n@),
            FormError::MalformedForm => FormErrorView::MalformedForm,
            FormError::RequiredFieldEmpty(n) => FormErrorView::RequiredFieldEmpty(n@),
        }
    }
}

/// Why a completed form could not become a record.
#[derive(Debug)]
pub enum EditError {
    /// The form itself is wrong.
    Form(FormError),
    /// A value names something that is not among the candidates: the value,
    /// then what the candidates are.
    NotInList(String, String),
    NewsBroadcastCannotHaveNetworkAndAffiliate,
    NewsBroadcastDoesNotHaveNetworkOrAffiliate,
    InvalidDate(String),
    InvalidCategory(String),
    InvalidDuration(String),
    InvalidTimestamp(String),
}

pub enum EditErrorView {
    Form(FormErrorView),
    NotInList(Seq<char>, Seq<char>),
    NewsBroadcastCannotHaveNetworkAndAffiliate,
    NewsBroadcastDoesNotHaveNetworkOrAffiliate,
    InvalidDate(Seq<char>),
    InvalidCategory(Seq<char>),
    InvalidDuration(Seq<char>),
    InvalidTimestamp(Seq<char>),
}

impl View for EditError {
    type V = EditErrorView;

    open spec fn view(&self) -> EditErrorView {
        match self {
            EditError::Form(e) => EditErrorView::Form(e@),
            EditError::NotInList(v, l) => EditErrorView::NotInList(v@, l@),
            EditError::NewsBroadcastCannotHaveNetworkAndAffiliate => EditErrorView::NewsBroadcastCannotHaveNetworkAndAffiliate,
            EditError::NewsBroadcastDoesNotHaveNetworkOrAffiliate => EditErrorView::NewsBroadcastDoesNotHaveNetworkOrAffiliate,
            EditError::InvalidDate(s) => EditErrorView::InvalidDate(s@),
            EditError::InvalidCategory(s) => EditErrorView::InvalidCategory(s@),
            EditError::InvalidDuration(s) => EditErrorView::InvalidDuration(s@),
            EditError::InvalidTimestamp(s) => EditErrorView::InvalidTimestamp(s@),
        }
    }
}

/// The message for a form error.
pub open spec fn form_error_text(e: FormErrorView) -> Seq<char> {
    match e {
        FormErrorView::ChoiceFieldNotFound(n) => "There are no choice fields named "@ + n,
        FormErrorView::FieldNotFound(n) => "Field "@ + n + " not found"@,
        FormErrorView::IncorrectType(n) => "Field "@ + n + " is of incorrect type"@,
        FormErrorView::InvalidValue(n) => "Invalid value for field "@ + n,
        FormErrorView::MalformedField(n) => "The "@ + n + " field is not in the expected form"@,
        FormErrorView::MalformedForm => "The form string is not in the expected form"@,
        FormErrorView::RequiredFieldEmpty(n) => "The "@ + n + " field requires at least one value"@,
    }
}

/// The message for an error in rebuilding a record.
pub open spec fn edit_error_text(e: EditErrorView) -> Seq<char> {
    match e {
        EditErrorView::Form(f) => form_error_text(f),
        EditErrorView::NotInList(v, l) => v + " is not in the "@ + l + " list"@,
        EditErrorView::NewsBroadcastCannotHaveNetworkAndAffiliate => "A news broadcast cannot have both a network and an affiliate"@,
        EditErrorView::NewsBroadcastDoesNotHaveNetworkOrAffiliate => "A news broadcast needs either a network or an affiliate"@,
        EditErrorView::InvalidDate(s) => s + " is not a date of the form YYYY-MM-DD"@,
        EditErrorView::InvalidCategory(s) => s + " is not a valid category"@,
        EditErrorView::InvalidDuration(s) => s + " is not a duration of the form HH:MM:SS"@,
        EditErrorView::InvalidTimestamp(s) => s
            + " is not an event of the form HH:MM:SS: description [HHMM] [event-type]"@,
    }
}

impl EditError {
    /// The message shown to the person editing the form.
    pub fn message(&self) -> (r: String)
        ensures
            r@ == edit_error_text(self@),
    {
        match self {
            EditError::Form(e) => e.message(),
            EditError::NotInList(v, l) => String::from_str(v.as_str()).concat(
                " is not in the ",
            ).concat(l.as_str()).concat(" list"),
            EditError::NewsBroadcastCannotHaveNetworkAndAffiliate => String::from_str(
                "A news broadcast cannot have both a network and an affiliate",
            ),
            EditError::NewsBroadcastDoesNotHaveNetworkOrAffiliate => String::from_str(
                "A news broadcast needs either a network or an affiliate",
            ),
            EditError::InvalidDate(s) => String::from_str(s.as_str()).concat(
                " is not a date of the form YYYY-MM-DD",
            ),
            EditError::InvalidCategory(s) => String::from_str(s.as_str()).concat(
                " is not a valid category",
            ),
            EditError::InvalidDuration(s) => String::from_str(s.as_str()).concat(
                " is not a duration of the form HH:MM:SS",
            ),
            EditError::InvalidTimestamp(s) => String::from_str(s.as_str()).concat(
                " is not an event of the form HH:MM:SS: description [HHMM] [event-type]",
            ),
        }
    }
}

impl FormError {
    /// The message shown to the person editing the form.
    pub fn message(&self) -> (r: String)
        ensures
            r@ == form_error_text(self@),
    {
        match self {
            FormError::ChoiceFieldNotFound(n) => String::from_str(
                "There are no choice fields named ",
            ).concat(n.as_str()),
            FormError::FieldNotFound(n) => String::from_str("Field ").concat(n.as_str()).concat(
                " not found",
            ),
            FormError::IncorrectType(n) => String::from_str("Field ").concat(n.as_str()).concat(
                " is of incorrect type",
            ),
            FormError::InvalidValue(n) => String::from_str("Invalid value for field ").concat(
                n.as_str(),
            ),
            FormError::MalformedField(n) => String::from_str("The ").concat(n.as_str()).concat(
                " field is not in the expected form",
            ),
            FormError::MalformedForm => String::from_str(
                "The form string is not in the expected form",
            ),
            FormError::RequiredFieldEmpty(n) => String::from_str("The ").concat(n.as_str()).concat(
                " field requires at least one value",
            ),
        }
    }
}

} // verus!
