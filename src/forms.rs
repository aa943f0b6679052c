//! A form: an ordered collection of named fields, rendered as sections of
//! text separated by `---` lines, and read back from such text.
use crate::errors::{FormError, FormErrorView};
use crate::fields::{
    after_label, block, choice_text, inline_text, choose_one_marker, choose_one_or_none_marker,
    choose_or_delete_marker, flag_word, label, line_items, list_items, multiline_value,
    no_word, same_word, yes_word, BooleanField, ChoiceField, FormField, ListField,
    MultilineListField, MultilineTextField, OptionalChoiceField, OptionalChoiceListField,
    OptionalListField, OptionalMultilineListField, OptionalMultilineTextField, OptionalTextField,
    TextField,
};
use crate::text::{contains, join, join_strs, split, split_str, trim, trim_str, views};
use vstd::prelude::*;
use vstd::string::*;

verus! {

/// The kind of a field, which decides how its section is read.
#[derive(Clone, Copy, PartialEq, Eq, Structural)]
pub enum Kind {
    Text,
    OptionalText,
    MultilineText,
    OptionalMultilineText,
    OptionalChoiceList,
    List,
    OptionalList,
    MultilineList,
    OptionalMultilineList,
    Choice,
    OptionalChoice,
    Boolean,
}

/// A field of any kind.
pub enum Field {
    Text(TextField),
    OptionalText(OptionalTextField),
    MultilineText(MultilineTextField),
    OptionalMultilineText(OptionalMultilineTextField),
    OptionalChoiceList(OptionalChoiceListField),
    List(ListField),
    OptionalList(OptionalListField),
    MultilineList(MultilineListField),
    OptionalMultilineList(OptionalMultilineListField),
    Choice(ChoiceField),
    OptionalChoice(OptionalChoiceField),
    Boolean(BooleanField),
}

/// A field as a mathematical value: its kind, its name, its value or
/// values, and the candidates offered for a choice.
pub struct FieldView {
    pub kind: Kind,
    pub name: Seq<char>,
    pub value: Seq<char>,
    pub values: Seq<Seq<char>>,
    pub choices: Seq<Seq<char>>,
    pub flag: bool,
}

pub open spec fn single(kind: Kind, name: Seq<char>, value: Seq<char>, choices: Seq<Seq<char>>) -> FieldView {
    FieldView { kind, name, value, values: Seq::empty(), choices, flag: false }
}

pub open spec fn multi(kind: Kind, name: Seq<char>, values: Seq<Seq<char>>, choices: Seq<Seq<char>>) -> FieldView {
    FieldView { kind, name, value: Seq::empty(), values, choices, flag: false }
}

pub open spec fn flag_field(name: Seq<char>, flag: bool) -> FieldView {
    FieldView {
        kind: Kind::Boolean,
        name,
        value: Seq::empty(),
        values: Seq::empty(),
        choices: Seq::empty(),
        flag,
    }
}

impl View for Field {
    type V = FieldView;

    open spec fn view(&self) -> FieldView {
        match self {
            Field::Text(f) => single(Kind::Text, f.name@, f.value@, Seq::empty()),
            Field::OptionalText(f) => single(Kind::OptionalText, f.name@, f.value@, Seq::empty()),
            Field::MultilineText(f) => single(Kind::MultilineText, f.name@, f.value@, Seq::empty()),
            Field::OptionalMultilineText(f) => single(
                Kind::OptionalMultilineText,
                f.name@,
                f.value@,
                Seq::empty(),
            ),
            Field::OptionalChoiceList(f) => multi(
                Kind::OptionalChoiceList,
                f.name@,
                views(f.values@),
                views(f.choices@),
            ),
            Field::List(f) => multi(Kind::List, f.name@, views(f.values@), Seq::empty()),
            Field::OptionalList(f) => multi(
                Kind::OptionalList,
                f.name@,
                views(f.values@),
                Seq::empty(),
            ),
            Field::MultilineList(f) => multi(
                Kind::MultilineList,
                f.name@,
                views(f.values@),
                Seq::empty(),
            ),
            Field::OptionalMultilineList(f) => multi(
                Kind::OptionalMultilineList,
                f.name@,
                views(f.values@),
                Seq::empty(),
            ),
            Field::Choice(f) => single(Kind::Choice, f.name@, f.value@, views(f.choices@)),
            Field::OptionalChoice(f) => single(
                Kind::OptionalChoice,
                f.name@,
                f.value@,
                views(f.choices@),
            ),
            Field::Boolean(f) => flag_field(f.name@, f.value),
        }
    }
}

/// Whether a kind holds a list of values.
pub open spec fn is_list_kind(k: Kind) -> bool {
    k == Kind::OptionalChoiceList || k == Kind::List || k == Kind::OptionalList || k
        == Kind::MultilineList || k == Kind::OptionalMultilineList
}

/// Whether a kind takes candidates.
pub open spec fn is_choice_kind(k: Kind) -> bool {
    k == Kind::OptionalChoiceList || k == Kind::Choice || k == Kind::OptionalChoice
}

/// The separator of a list kind's values when shown as one text.
pub open spec fn list_separator(k: Kind) -> Seq<char> {
    if k == Kind::OptionalChoiceList {
        seq![';']
    } else if k == Kind::List || k == Kind::OptionalList {
        seq![';', ' ']
    } else {
        seq!['\n']
    }
}

/// A field's value as one text.
pub open spec fn field_value(f: FieldView) -> Seq<char> {
    if is_list_kind(f.kind) {
        join(f.values, list_separator(f.kind))
    } else if f.kind == Kind::Boolean {
        flag_word(f.flag)
    } else {
        f.value
    }
}

/// A field's section of text.
pub open spec fn field_text(f: FieldView) -> Seq<char> {
    match f.kind {
        Kind::Text => inline_text(f.name, f.value),
        Kind::OptionalText => inline_text(f.name, f.value),
        Kind::MultilineText => block(f.name, f.value),
        Kind::OptionalMultilineText => block(f.name, f.value),
        Kind::OptionalChoiceList => choice_text(
            f.name,
            field_value(f),
            f.choices,
            choose_or_delete_marker(),
        ),
        Kind::List => inline_text(f.name, field_value(f)),
        Kind::OptionalList => inline_text(f.name, field_value(f)),
        Kind::MultilineList => block(f.name, field_value(f)),
        Kind::OptionalMultilineList => block(f.name, field_value(f)),
        Kind::Choice => choice_text(f.name, f.value, f.choices, choose_one_marker()),
        Kind::OptionalChoice => choice_text(f.name, f.value, f.choices, choose_one_or_none_marker()),
        Kind::Boolean => label(f.name) + seq![' '] + flag_word(f.flag),
    }
}

/// Reading a section as a field of the given kind and name.
pub open spec fn parse_field(kind: Kind, name: Seq<char>, input: Seq<char>) -> Result<
    FieldView,
    FormErrorView,
> {
    let v = after_label(name, input);
    if !contains(input, name) {
        Err(FormErrorView::MalformedField(name))
    } else {
        match kind {
            Kind::Text => if v.len() == 0 {
                Err(FormErrorView::RequiredFieldEmpty(name))
            } else {
                Ok(single(kind, name, v, Seq::empty()))
            },
            Kind::MultilineText => if multiline_value(name, input).len() == 0 {
                Err(FormErrorView::RequiredFieldEmpty(name))
            } else {
                Ok(single(kind, name, multiline_value(name, input), Seq::empty()))
            },
            Kind::OptionalMultilineText => Ok(single(kind, name, v, Seq::empty())),
            Kind::OptionalChoiceList => Ok(multi(kind, name, list_items(v), Seq::empty())),
            Kind::List => if v.len() == 0 {
                Err(FormErrorView::RequiredFieldEmpty(name))
            } else {
                Ok(multi(kind, name, list_items(v), Seq::empty()))
            },
            Kind::OptionalList => Ok(multi(kind, name, list_items(v), Seq::empty())),
            Kind::MultilineList => if v.len() == 0 {
                Err(FormErrorView::RequiredFieldEmpty(name))
            } else {
                Ok(multi(kind, name, line_items(v), Seq::empty()))
            },
            Kind::OptionalMultilineList => Ok(multi(kind, name, line_items(v), Seq::empty())),
            Kind::Choice => if v.len() == 0 {
                Err(FormErrorView::RequiredFieldEmpty(name))
            } else {
                Ok(single(kind, name, v, Seq::empty()))
            },
            Kind::OptionalChoice => Ok(single(kind, name, v, Seq::empty())),
            Kind::OptionalText => Ok(single(kind, name, v, Seq::empty())),
            Kind::Boolean => if v.len() == 0 {
                Err(FormErrorView::RequiredFieldEmpty(name))
            } else if same_word(v, yes_word()) {
                Ok(flag_field(name, true))
            } else if same_word(v, no_word()) {
                Ok(flag_field(name, false))
            } else {
                Err(FormErrorView::MalformedField(name))
            },
        }
    }
}

/// The separator between the sections of a form.
pub open spec fn section_delimiter() -> Seq<char> {
    seq!['-', '-', '-', '\n']
}

/// The first `n` sections read in order; the first failure is the result.
pub open spec fn parse_prefix(
    kinds: Seq<Kind>,
    names: Seq<Seq<char>>,
    parts: Seq<Seq<char>>,
    n: nat,
) -> Result<Seq<FieldView>, FormErrorView>
    decreases n,
{
    if n == 0 {
        Ok(Seq::empty())
    } else {
        match parse_prefix(kinds, names, parts, (n - 1) as nat) {
            Err(e) => Err(e),
            Ok(fs) => match parse_field(kinds[n - 1], names[n - 1], parts[n - 1]) {
                Err(e) => Err(e),
                Ok(f) => Ok(fs.push(f)),
            },
        }
    }
}

/// A form's text read with a fixed sequence of field kinds and names: it
/// must have exactly one section per field.
pub open spec fn parse_form(kinds: Seq<Kind>, names: Seq<Seq<char>>, s: Seq<char>) -> Result<
    Seq<FieldView>,
    FormErrorView,
> {
    let parts = split(s, section_delimiter());
    if parts.len() != kinds.len() {
        Err(FormErrorView::MalformedForm)
    } else {
        parse_prefix(kinds, names, parts, kinds.len())
    }
}

/// The text of a form: its fields' sections, separated by `---` lines, and
/// trimmed.
pub open spec fn form_text(fields: Seq<FieldView>) -> Seq<char> {
    trim(join(Seq::new(fields.len(), |i: int| field_text(fields[i])), seq!['\n', '-', '-', '-', '\n']))
}

/// The position of the first field with the given name, or -1.
pub open spec fn field_index(fields: Seq<FieldView>, name: Seq<char>) -> int
    decreases fields.len(),
{
    if fields.len() == 0 {
        -1
    } else if fields.last().name == name && field_index(fields.drop_last(), name) < 0 {
        fields.len() - 1
    } else {
        field_index(fields.drop_last(), name)
    }
}

pub proof fn lemma_field_index(fields: Seq<FieldView>, name: Seq<char>, i: int)
    requires
        0 <= i <= fields.len(),
        forall|j: int| 0 <= j < i ==> (#[trigger] fields[j]).name != name,
        i < fields.len() ==> fields[i].name == name,
    ensures
        field_index(fields, name) == if i < fields.len() {
            i
        } else {
            -1
        },
    decreases fields.len(),
{
    if fields.len() > 0 {
        let d = fields.drop_last();
        if i < fields.len() - 1 {
            lemma_field_index(d, name, i);
        } else {
            assert forall|j: int| 0 <= j < d.len() implies (#[trigger] d[j]).name != name by {
                assert(d[j] == fields[j]);
            }
            lemma_field_index(d, name, d.len() as int);
        }
    }
}

/// The field with the given name, if any.
pub open spec fn find_field(fields: Seq<FieldView>, name: Seq<char>) -> Option<FieldView> {
    let k = field_index(fields, name);
    if 0 <= k < fields.len() {
        Some(fields[k])
    } else {
        None
    }
}

/// Looking up a field's value as one text.
pub open spec fn value_of(fields: Seq<FieldView>, name: Seq<char>) -> Result<
    Seq<char>,
    FormErrorView,
> {
    match find_field(fields, name) {
        None => Err(FormErrorView::FieldNotFound(name)),
        Some(f) => Ok(field_value(f)),
    }
}

/// Looking up the values of a list field.
pub open spec fn values_of(fields: Seq<FieldView>, name: Seq<char>) -> Result<
    Seq<Seq<char>>,
    FormErrorView,
> {
    match find_field(fields, name) {
        None => Err(FormErrorView::FieldNotFound(name)),
        Some(f) => if is_list_kind(f.kind) {
            Ok(f.values)
        } else {
            Err(FormErrorView::IncorrectType(name))
        },
    }
}

/// Looking up a flag.
pub open spec fn flag_of(fields: Seq<FieldView>, name: Seq<char>) -> Result<bool, FormErrorView> {
    match find_field(fields, name) {
        None => Err(FormErrorView::FieldNotFound(name)),
        Some(f) => if f.kind == Kind::Boolean {
            Ok(f.flag)
        } else {
            Err(FormErrorView::IncorrectType(name))
        },
    }
}

impl Field {
    pub open spec fn kind(&self) -> Kind {
        self@.kind
    }

    /// Reads a section as a field of the given kind.
    pub fn parse(kind: Kind, name: &str, input: &str) -> (r: Result<Field, FormError>)
        ensures
            r matches Ok(f) ==> parse_field(kind, name@, input@) == Ok::<FieldView, FormErrorView>(
                f@,
            ),
            r matches Err(e) ==> parse_field(kind, name@, input@) == Err::<FieldView, FormErrorView>(
                e@,
            ),
    {
        match kind {
            Kind::Text => match TextField::from_input_str(name, input) {
                Ok(f) => Ok(Field::Text(f)),
                Err(e) => Err(e),
            },
            Kind::MultilineText => match MultilineTextField::from_input_str(name, input) {
                Ok(f) => Ok(Field::MultilineText(f)),
                Err(e) => Err(e),
            },
            Kind::OptionalMultilineText => match OptionalMultilineTextField::from_input_str(
                name,
                input,
            ) {
                Ok(f) => Ok(Field::OptionalMultilineText(f)),
                Err(e) => Err(e),
            },
            Kind::OptionalChoiceList => match OptionalChoiceListField::from_input_str(name, input) {
                Ok(f) => {
                    assert(views(f.choices@) =~= Seq::<Seq<char>>::empty());
                    Ok(Field::OptionalChoiceList(f))
                },
                Err(e) => Err(e),
            },
            Kind::List => match ListField::from_input_str(name, input) {
                Ok(f) => Ok(Field::List(f)),
                Err(e) => Err(e),
            },
            Kind::OptionalList => match OptionalListField::from_input_str(name, input) {
                Ok(f) => Ok(Field::OptionalList(f)),
                Err(e) => Err(e),
            },
            Kind::MultilineList => match MultilineListField::from_input_str(name, input) {
                Ok(f) => Ok(Field::MultilineList(f)),
                Err(e) => Err(e),
            },
            Kind::OptionalMultilineList => match OptionalMultilineListField::from_input_str(
                name,
                input,
            ) {
                Ok(f) => Ok(Field::OptionalMultilineList(f)),
                Err(e) => Err(e),
            },
            Kind::Choice => match ChoiceField::from_input_str(name, input) {
                Ok(f) => {
                    assert(views(f.choices@) =~= Seq::<Seq<char>>::empty());
                    Ok(Field::Choice(f))
                },
                Err(e) => Err(e),
            },
            Kind::OptionalChoice => match OptionalChoiceField::from_input_str(name, input) {
                Ok(f) => {
                    assert(views(f.choices@) =~= Seq::<Seq<char>>::empty());
                    Ok(Field::OptionalChoice(f))
                },
                Err(e) => Err(e),
            },
            Kind::OptionalText => match OptionalTextField::from_input_str(name, input) {
                Ok(f) => Ok(Field::OptionalText(f)),
                Err(e) => Err(e),
            },
            Kind::Boolean => match BooleanField::from_input_str(name, input) {
                Ok(f) => Ok(Field::Boolean(f)),
                Err(e) => Err(e),
            },
        }
    }

    /// The list of values of a list field.
    pub fn list_values(&self) -> (r: Option<Vec<String>>)
        ensures
            is_list_kind(self@.kind) ==> (r matches Some(v) && views(v@) == self@.values),
            !is_list_kind(self@.kind) ==> r is None,
    {
        match self {
            Field::OptionalChoiceList(f) => Some(crate::text::copy_strs(&f.values)),
            Field::List(f) => Some(crate::text::copy_strs(&f.values)),
            Field::OptionalList(f) => Some(crate::text::copy_strs(&f.values)),
            Field::MultilineList(f) => Some(crate::text::copy_strs(&f.values)),
            Field::OptionalMultilineList(f) => Some(crate::text::copy_strs(&f.values)),
            _ => None,
        }
    }
}

impl FormField for Field {
    open spec fn spec_name(&self) -> Seq<char> {
        self@.name
    }

    open spec fn spec_value(&self) -> Seq<char> {
        field_value(self@)
    }

    open spec fn spec_text(&self) -> Seq<char> {
        field_text(self@)
    }

    fn name(&self) -> (r: &str) {
        match self {
            Field::Text(f) => f.name(),
            Field::MultilineText(f) => f.name(),
            Field::OptionalMultilineText(f) => f.name(),
            Field::OptionalChoiceList(f) => f.name(),
            Field::List(f) => f.name(),
            Field::OptionalList(f) => f.name(),
            Field::MultilineList(f) => f.name(),
            Field::OptionalMultilineList(f) => f.name(),
            Field::Choice(f) => f.name(),
            Field::OptionalChoice(f) => f.name(),
            Field::OptionalText(f) => f.name(),
            Field::Boolean(f) => f.name(),
        }
    }

    fn value(&self) -> (r: String) {
        match self {
            Field::Text(f) => f.value(),
            Field::MultilineText(f) => f.value(),
            Field::OptionalMultilineText(f) => f.value(),
            Field::OptionalChoiceList(f) => f.value(),
            Field::List(f) => f.value(),
            Field::OptionalList(f) => f.value(),
            Field::MultilineList(f) => f.value(),
            Field::OptionalMultilineList(f) => f.value(),
            Field::Choice(f) => f.value(),
            Field::OptionalChoice(f) => f.value(),
            Field::OptionalText(f) => f.value(),
            Field::Boolean(f) => f.value(),
        }
    }

    fn as_string(&self) -> (r: String) {
        match self {
            Field::Text(f) => f.as_string(),
            Field::MultilineText(f) => f.as_string(),
            Field::OptionalMultilineText(f) => f.as_string(),
            Field::OptionalChoiceList(f) => f.as_string(),
            Field::List(f) => f.as_string(),
            Field::OptionalList(f) => f.as_string(),
            Field::MultilineList(f) => f.as_string(),
            Field::OptionalMultilineList(f) => f.as_string(),
            Field::Choice(f) => f.as_string(),
            Field::OptionalChoice(f) => f.as_string(),
            Field::OptionalText(f) => f.as_string(),
            Field::Boolean(f) => f.as_string(),
        }
    }
}

/// An ordered collection of fields.
pub struct Form {
    pub fields: Vec<Field>,
}

impl View for Form {
    type V = Seq<FieldView>;

    open spec fn view(&self) -> Seq<FieldView> {
        Seq::new(self.fields@.len(), |i: int| self.fields@[i]@)
    }
}

impl Form {
    pub fn new() -> (r: Self)
        ensures
            r@.len() == 0,
    {
        Form { fields: Vec::new() }
    }

    /// Appends a field after the others.
    pub fn add_field(&mut self, field: Field)
        ensures
            final(self)@ == old(self)@.push(field@),
    {
        self.fields.push(field);
        assert(self@ =~= old(self)@.push(field@));
    }

    /// Reads a form's text with a fixed sequence of field kinds and names.
    pub fn parse_with(kinds: &Vec<Kind>, names: &Vec<&str>, s: &str) -> (r: Result<Form, FormError>)
        requires
            kinds@.len() == names@.len(),
        ensures
            r matches Ok(f) ==> parse_form(kinds@, names@.map_values(|n: &str| n@), s@) == Ok::<
                Seq<FieldView>,
                FormErrorView,
            >(f@),
            r matches Err(e) ==> parse_form(kinds@, names@.map_values(|n: &str| n@), s@) == Err::<
                Seq<FieldView>,
                FormErrorView,
            >(e@),
    {
        let ghost ns = names@.map_values(|n: &str| n@);
        proof {
            reveal_strlit("---\n");
            assert("---\n"@ =~= section_delimiter());
        }
        let parts = split_str(s, "---\n");
        let ghost ps = views(parts@);
        if parts.len() != kinds.len() {
            return Err(FormError::MalformedForm);
        }
        let mut form = Form::new();
        assert(form@ =~= Seq::<FieldView>::empty());
        let mut i: usize = 0;
        while i < kinds.len()
            invariant
                kinds@.len() == names@.len(),
                parts@.len() == kinds@.len(),
                ps == views(parts@),
                ps == split(s@, section_delimiter()),
                ns == names@.map_values(|n: &str| n@),
                i <= kinds@.len(),
                parse_prefix(kinds@, ns, ps, i as nat) == Ok::<Seq<FieldView>, FormErrorView>(
                    form@,
                ),
            decreases kinds.len() - i,
        {
            proof {
                assert(ns[i as int] == names@[i as int]@);
                assert(ps[i as int] == parts@[i as int]@);
            }
            match Field::parse(kinds[i], names[i], parts[i].as_str()) {
                Ok(f) => {
                    form.add_field(f);
                },
                Err(e) => {
                    proof {
                        lemma_prefix_err(kinds@, ns, ps, (i + 1) as nat, kinds@.len());
                    }
                    return Err(e);
                },
            }
            i = i + 1;
        }
        Ok(form)
    }

    /// The form as text: each field's section, separated by `---` lines.
    pub fn as_string(&self) -> (r: String)
        ensures
            r@ == form_text(self@),
    {
        let mut texts: Vec<String> = Vec::new();
        let mut i: usize = 0;
        while i < self.fields.len()
            invariant
                i <= self.fields@.len(),
                texts@.len() == i,
                forall|k: int| 0 <= k < i ==> (#[trigger] texts@[k])@ == field_text(self@[k]),
            decreases self.fields.len() - i,
        {
            let t = self.fields[i].as_string();
            texts.push(t);
            i = i + 1;
        }
        proof {
            reveal_strlit("\n---\n");
            assert("\n---\n"@ =~= seq!['\n', '-', '-', '-', '\n']);
            assert(views(texts@) =~= Seq::new(self@.len(), |k: int| field_text(self@[k])));
        }
        let joined = join_strs(&texts, "\n---\n");
        trim_str(joined.as_str())
    }

    fn index_of(&self, name: &str) -> (r: Option<usize>)
        ensures
            field_index(self@, name@) < 0 ==> r is None,
            0 <= field_index(self@, name@) ==> (r matches Some(i) && i as int == field_index(
                self@,
                name@,
            )),
            0 <= field_index(self@, name@) ==> field_index(self@, name@) < self@.len(),
    {
        let mut i: usize = 0;
        while i < self.fields.len()
            invariant
                i <= self.fields@.len(),
                forall|j: int| 0 <= j < i ==> (#[trigger] self@[j]).name != name@,
            decreases self.fields.len() - i,
        {
            let n = self.fields[i].name();
            if crate::text::equal_strs(n, name) {
                proof {
                    lemma_field_index(self@, name@, i as int);
                }
                return Some(i);
            }
            i = i + 1;
        }
        proof {
            lemma_field_index(self@, name@, i as int);
        }
        None
    }

    /// The first field with the given name.
    pub fn get_field(&self, name: &str) -> (r: Result<&Field, FormError>)
        ensures
            find_field(self@, name@) matches Some(f) ==> (r matches Ok(g) && g@ == f),
            find_field(self@, name@) is None ==> (r matches Err(e) && e@
                == FormErrorView::FieldNotFound(name@)),
    {
        match self.index_of(name) {
            Some(i) => {
                assert(self@[i as int] == self.fields@[i as int]@);
                Ok(&self.fields[i])
            },
            None => Err(FormError::FieldNotFound(String::from_str(name))),
        }
    }

    /// The value of the named field as one text.
    pub fn get_value(&self, name: &str) -> (r: Result<String, FormError>)
        ensures
            r matches Ok(v) ==> value_of(self@, name@) == Ok::<Seq<char>, FormErrorView>(v@),
            r matches Err(e) ==> value_of(self@, name@) == Err::<Seq<char>, FormErrorView>(e@),
    {
        match self.get_field(name) {
            Ok(f) => Ok(f.value()),
            Err(e) => Err(e),
        }
    }

    /// The values of the named list field.
    pub fn get_values(&self, name: &str) -> (r: Result<Vec<String>, FormError>)
        ensures
            r matches Ok(v) ==> values_of(self@, name@) == Ok::<Seq<Seq<char>>, FormErrorView>(
                views(v@),
            ),
            r matches Err(e) ==> values_of(self@, name@) == Err::<Seq<Seq<char>>, FormErrorView>(
                e@,
            ),
    {
        match self.get_field(name) {
            Ok(f) => match f.list_values() {
                Some(v) => Ok(v),
                None => Err(FormError::IncorrectType(String::from_str(name))),
            },
            Err(e) => Err(e),
        }
    }

    /// The named flag.
    pub fn get_flag(&self, name: &str) -> (r: Result<bool, FormError>)
        ensures
            r matches Ok(v) ==> flag_of(self@, name@) == Ok::<bool, FormErrorView>(v),
            r matches Err(e) ==> flag_of(self@, name@) == Err::<bool, FormErrorView>(e@),
    {
        match self.get_field(name) {
            Ok(Field::Boolean(f)) => Ok(f.value),
            Ok(_) => Err(FormError::IncorrectType(String::from_str(name))),
            Err(e) => Err(e),
        }
    }

    /// Offers candidates in the named choice field, after any it has.
    pub fn add_choices(&mut self, field_name: &str, choices: Vec<String>) -> (r: Result<
        (),
        FormError,
    >)
        ensures
            ({
                let k = field_index(old(self)@, field_name@);
                if 0 <= k && is_choice_kind(old(self)@[k].kind) {
                    &&& r is Ok
                    &&& final(self)@ == old(self)@.update(
                        k,
                        FieldView { choices: old(self)@[k].choices + views(choices@), ..old(self)@[k] },
                    )
                } else {
                    &&& r matches Err(e)
                    &&& e@ == FormErrorView::ChoiceFieldNotFound(field_name@)
                    &&& final(self)@ == old(self)@
                }
            }),
    {
        let k = match self.index_of(field_name) {
            Some(k) => k,
            None => {
                return Err(FormError::ChoiceFieldNotFound(String::from_str(field_name)));
            },
        };
        let ghost before = self@;
        let ghost added = choices@;
        let f = self.fields.remove(k);
        let g = match f {
            Field::OptionalChoiceList(mut c) => {
                let ghost had = c.choices@;
                c.add_choices(choices);
                assert(views(c.choices@) =~= views(had) + views(added));
                Field::OptionalChoiceList(c)
            },
            Field::Choice(mut c) => {
                let ghost had = c.choices@;
                c.add_choices(choices);
                assert(views(c.choices@) =~= views(had) + views(added));
                Field::Choice(c)
            },
            Field::OptionalChoice(mut c) => {
                let ghost had = c.choices@;
                c.add_choices(choices);
                assert(views(c.choices@) =~= views(had) + views(added));
                Field::OptionalChoice(c)
            },
            other => {
                self.fields.insert(k, other);
                assert(self@ =~= before);
                return Err(FormError::ChoiceFieldNotFound(String::from_str(field_name)));
            },
        };
        self.fields.insert(k, g);
        assert(self@ =~= before.update(
            k as int,
            FieldView { choices: before[k as int].choices + views(added), ..before[k as int] },
        ));
        Ok(())
    }
}

/// Once a prefix of the sections fails, the whole form fails the same way.
pub proof fn lemma_prefix_err(
    kinds: Seq<Kind>,
    names: Seq<Seq<char>>,
    parts: Seq<Seq<char>>,
    i: nat,
    m: nat,
)
    requires
        i <= m,
        parse_prefix(kinds, names, parts, i) is Err,
    ensures
        parse_prefix(kinds, names, parts, m) == parse_prefix(kinds, names, parts, i),
    decreases m - i,
{
    if i < m {
        lemma_prefix_err(kinds, names, parts, i, (m - 1) as nat);
    }
}

} // verus!
