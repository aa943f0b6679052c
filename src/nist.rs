//! The forms of the archive's notes on NIST tapes and videos.
use crate::errors::{FormError, FormErrorView};
use crate::fields::{BooleanField, OptionalMultilineListField, OptionalMultilineTextField};
use crate::forms::{
    flag_field, flag_of, multi, parse_form, single, value_of, values_of, Field,
    FieldView, Form, Kind,
};
use crate::masters::paths;
use crate::models::{file_views, opt_view, NistTape, NistVideo};
use crate::news::{form_result, text_or_empty};
use crate::text::views;
use vstd::prelude::*;
use vstd::string::*;

verus! {

/// A tape's form: the release files it was found in, one path per line.
pub open spec fn tape_form(files: Seq<(Seq<char>, u64)>) -> Seq<FieldView> {
    seq![multi(Kind::OptionalMultilineList, "NIST Files"@, paths(files), Seq::empty())]
}

pub open spec fn tape_kinds() -> Seq<Kind> {
    seq![Kind::OptionalMultilineList]
}

pub open spec fn tape_labels() -> Seq<Seq<char>> {
    seq!["NIST Files"@]
}

/// The release files a tape's form lists, each with size 0, for the
/// catalogue to fill in.
pub open spec fn release_files_of(fs: Seq<FieldView>) -> Result<Seq<(Seq<char>, u64)>, FormErrorView> {
    match values_of(fs, "NIST Files"@) {
        Err(e) => Err(e),
        Ok(v) => Ok(Seq::new(v.len(), |i: int| (v[i], 0u64))),
    }
}

pub open spec fn nist_video_kinds() -> Seq<Kind> {
    seq![Kind::Boolean, Kind::OptionalMultilineText]
}

pub open spec fn nist_video_labels() -> Seq<Seq<char>> {
    seq!["Missing?"@, "Additional Notes"@]
}

/// A NIST video's form: whether it is missing, and notes on it.
pub open spec fn nist_video_form(missing: bool, notes: Option<Seq<char>>) -> Seq<FieldView> {
    seq![
        flag_field("Missing?"@, missing),
        single(Kind::OptionalMultilineText, "Additional Notes"@, text_or_empty(notes), Seq::empty()),
    ]
}

impl Form {
    /// The form of a tape's release files.
    pub fn from_nist_tape(model: &NistTape) -> (r: Form)
        ensures
            r@ == tape_form(file_views(model.release_files@)),
    {
        let mut files: Vec<String> = Vec::new();
        let mut i: usize = 0;
        while i < model.release_files.len()
            invariant
                i <= model.release_files@.len(),
                files@.len() == i,
                forall|k: int|
                    0 <= k < i ==> (#[trigger] files@[k])@ == model.release_files@[k].0@,
            decreases model.release_files.len() - i,
        {
            files.push(model.release_files[i].0.clone());
            i = i + 1;
        }
        assert(views(files@) =~= paths(file_views(model.release_files@)));
        let mut form = Form::new();
        form.add_field(
            Field::OptionalMultilineList(OptionalMultilineListField::new("NIST Files", &files)),
        );
        assert(form@ =~~= tape_form(file_views(model.release_files@)));
        form
    }

    /// Reads a tape's completed form: one section, its release files.
    pub fn from_nist_tape_str(s: &str) -> (r: Result<Form, FormError>)
        ensures
            form_result(r) == parse_form(tape_kinds(), tape_labels(), s@),
    {
        let kinds = vec![Kind::OptionalMultilineList];
        let names = vec!["NIST Files"];
        assert(kinds@ =~= tape_kinds());
        assert(names@.map_values(|n: &str| n@) =~= tape_labels());
        Form::parse_with(&kinds, &names, s)
    }

    /// The form of a NIST video's notes.
    pub fn from_nist_video(model: &NistVideo) -> (r: Form)
        ensures
            r@ == nist_video_form(model.is_missing, opt_view(model.additional_notes)),
    {
        let notes = match &model.additional_notes {
            Some(n) => n.clone(),
            None => String::new(),
        };
        let mut form = Form::new();
        form.add_field(Field::Boolean(BooleanField::new("Missing?", model.is_missing)));
        form.add_field(
            Field::OptionalMultilineText(
                OptionalMultilineTextField::new("Additional Notes", notes.as_str()),
            ),
        );
        assert(form@ =~~= nist_video_form(model.is_missing, opt_view(model.additional_notes)));
        form
    }

    /// Reads a NIST video's completed form.
    pub fn from_nist_video_str(s: &str) -> (r: Result<Form, FormError>)
        ensures
            form_result(r) == parse_form(nist_video_kinds(), nist_video_labels(), s@),
    {
        let kinds = vec![Kind::Boolean, Kind::OptionalMultilineText];
        let names = vec!["Missing?", "Additional Notes"];
        assert(kinds@ =~= nist_video_kinds());
        assert(names@.map_values(|n: &str| n@) =~= nist_video_labels());
        Form::parse_with(&kinds, &names, s)
    }
}

/// The release files a tape's completed form lists.
pub fn get_release_files_from_form(form: &Form) -> (r: Result<Vec<(String, u64)>, FormError>)
    ensures
        r matches Ok(v) ==> release_files_of(form@) == Ok::<
            Seq<(Seq<char>, u64)>,
            FormErrorView,
        >(file_views(v@)),
        r matches Err(e) ==> release_files_of(form@) == Err::<Seq<(Seq<char>, u64)>, FormErrorView>(
            e@,
        ),
{
    let names = match form.get_values("NIST Files") {
        Ok(v) => v,
        Err(e) => return Err(e),
    };
    let mut files: Vec<(String, u64)> = Vec::new();
    let mut i: usize = 0;
    while i < names.len()
        invariant
            i <= names@.len(),
            files@.len() == i,
            forall|k: int|
                0 <= k < i ==> (#[trigger] files@[k]).0@ == names@[k]@ && files@[k].1 == 0,
        decreases names.len() - i,
    {
        files.push((names[i].clone(), 0u64));
        i = i + 1;
    }
    let ghost nv = views(names@);
    assert(file_views(files@) =~= Seq::new(nv.len(), |k: int| (nv[k], 0u64)));
    Ok(files)
}

/// Whether a NIST video's completed form marks it missing, and its notes.
pub fn get_missing_and_additional_notes_field(form: &Form) -> (r: Result<(bool, String), FormError>)
    ensures
        r matches Ok(p) ==> flag_of(form@, "Missing?"@) == Ok::<bool, FormErrorView>(p.0)
            && value_of(form@, "Additional Notes"@) == Ok::<Seq<char>, FormErrorView>(p.1@),
        r matches Err(e) ==> flag_of(form@, "Missing?"@) == Err::<bool, FormErrorView>(e@) || (
        flag_of(form@, "Missing?"@) is Ok && value_of(form@, "Additional Notes"@) == Err::<
            Seq<char>,
            FormErrorView,
        >(e@)),
{
    let is_missing = match form.get_flag("Missing?") {
        Ok(b) => b,
        Err(e) => return Err(e),
    };
    let notes = match form.get_value("Additional Notes") {
        Ok(v) => v,
        Err(e) => return Err(e),
    };
    Ok((is_missing, notes))
}

} // verus!
