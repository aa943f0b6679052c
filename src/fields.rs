//! The kinds of field a form is made of. Each renders itself as a section
//! of text that starts with its label, `Name:`, and is read back from such a
//! section.
use crate::errors::{FormError, FormErrorView};
use crate::text::{
    contains, copy_strs, join, join_strs, split, split_str, strip_all, strip_all_str, strip_once, strip_once_str, trim,
    trim_all, trim_each, trim_str, views, contains_str,
};
use vstd::prelude::*;
use vstd::string::*;

verus! {

// ---------------------------------------------------------------------------
// The text of fields
/// The label that starts a field's section.
pub open spec fn label(name: Seq<char>) -> Seq<char> {
    name + seq![':']
}

/// What a section holds once its label and the surrounding whitespace are
/// gone.
pub open spec fn after_label(name: Seq<char>, input: Seq<char>) -> Seq<char> {
    trim(strip_once(input, label(name)))
}

/// The items of a `;`-separated list, each trimmed; none for empty text.
pub open spec fn list_items(s: Seq<char>) -> Seq<Seq<char>> {
    if s.len() == 0 {
        Seq::empty()
    } else {
        trim_each(split(s, seq![';']))
    }
}

/// The lines of a text; none for empty text.
pub open spec fn line_items(s: Seq<char>) -> Seq<Seq<char>> {
    if s.len() == 0 {
        Seq::empty()
    } else {
        split(s, seq!['\n'])
    }
}

/// `Name: value` on one line, or the bare label for an empty value.
pub open spec fn inline_text(name: Seq<char>, v: Seq<char>) -> Seq<char> {
    if v.len() == 0 {
        label(name)
    } else {
        label(name) + seq![' '] + v
    }
}

/// The label on a line of its own, then the value.
pub open spec fn block(name: Seq<char>, v: Seq<char>) -> Seq<char> {
    label(name) + seq!['\n'] + v
}

/// Each candidate on a line of its own.
pub open spec fn lines(cs: Seq<Seq<char>>) -> Seq<char>
    decreases cs.len(),
{
    if cs.len() == 0 {
        Seq::empty()
    } else {
        lines(cs.drop_last()) + cs.last() + seq!['\n']
    }
}

/// A choice field: its value inline; or, when it is empty and candidates
/// were given, a marker line and then every candidate on a line of its own.
pub open spec fn choice_text(
    name: Seq<char>,
    v: Seq<char>,
    choices: Seq<Seq<char>>,
    marker: Seq<char>,
) -> Seq<char> {
    trim(
        if v.len() > 0 {
            label(name) + seq![' '] + v
        } else if choices.len() > 0 {
            label(name) + seq!['\n'] + marker + seq!['\n'] + lines(choices)
        } else {
            label(name)
        },
    )
}

pub open spec fn choose_one_marker() -> Seq<char> {
    "## CHOOSE ONE ##"@
}

pub open spec fn choose_one_or_none_marker() -> Seq<char> {
    "## CHOOSE ONE OR NONE ##"@
}

pub open spec fn choose_or_delete_marker() -> Seq<char> {
    "## CHOOSE ONE OR DELETE ALL ##"@
}

/// `c` is the lower-case letter `w`, or its upper-case form.
pub open spec fn same_letter(c: char, w: char) -> bool {
    c == w || ('A' <= c && c <= 'Z' && (c as u32) + 32 == (w as u32))
}

/// `s` equals the lower-case word `w` but for the case of its letters.
pub open spec fn same_word(s: Seq<char>, w: Seq<char>) -> bool {
    s.len() == w.len() && forall|i: int| 0 <= i < s.len() ==> same_letter(#[trigger] s[i], w[i])
}

pub open spec fn yes_word() -> Seq<char> {
    seq!['y', 'e', 's']
}

pub open spec fn no_word() -> Seq<char> {
    seq!['n', 'o']
}

/// What a flag reads as.
pub open spec fn flag_word(b: bool) -> Seq<char> {
    if b {
        seq!['Y', 'e', 's']
    } else {
        seq!['N', 'o']
    }
}

/// The errors that every field kind shares: a section without the field's
/// name is malformed.
pub open spec fn malformed(name: Seq<char>) -> FormErrorView {
    FormErrorView::MalformedField(name)
}

pub open spec fn required_empty(name: Seq<char>) -> FormErrorView {
    FormErrorView::RequiredFieldEmpty(name)
}

// ---------------------------------------------------------------------------
// Executable helpers
pub(crate) fn label_of(name: &str) -> (r: String)
    ensures
        r@ == label(name@),
{
    proof {
        reveal_strlit(":");
        assert(":"@ =~= seq![':']);
    }
    String::from_str(name).concat(":")
}

pub(crate) fn after_label_of(name: &str, input: &str) -> (r: String)
    ensures
        r@ == after_label(name@, input@),
{
    let l = label_of(name);
    let s = strip_once_str(input, l.as_str());
    trim_str(s.as_str())
}

pub(crate) fn list_items_of(s: &str) -> (r: Vec<String>)
    ensures
        views(r@) == list_items(s@),
{
    if s.is_empty() {
        let r: Vec<String> = Vec::new();
        assert(views(r@) =~= Seq::<Seq<char>>::empty());
        r
    } else {
        proof {
            reveal_strlit(";");
            assert(";"@ =~= seq![';']);
        }
        let parts = split_str(s, ";");
        trim_all(&parts)
    }
}

pub(crate) fn line_items_of(s: &str) -> (r: Vec<String>)
    ensures
        views(r@) == line_items(s@),
{
    if s.is_empty() {
        let r: Vec<String> = Vec::new();
        assert(views(r@) =~= Seq::<Seq<char>>::empty());
        r
    } else {
        proof {
            reveal_strlit("\n");
            assert("\n"@ =~= seq!['\n']);
        }
        split_str(s, "\n")
    }
}

pub(crate) fn inline_text_of(name: &str, v: &str) -> (r: String)
    ensures
        r@ == inline_text(name@, v@),
{
    let l = label_of(name);
    if v.is_empty() {
        l
    } else {
        proof {
            reveal_strlit(" ");
            assert(" "@ =~= seq![' ']);
        }
        l.concat(" ").concat(v)
    }
}

pub(crate) fn block_of(name: &str, v: &str) -> (r: String)
    ensures
        r@ == block(name@, v@),
{
    proof {
        reveal_strlit("\n");
        assert("\n"@ =~= seq!['\n']);
    }
    label_of(name).concat("\n").concat(v)
}

pub(crate) fn lines_of(cs: &Vec<String>) -> (r: String)
    ensures
        r@ == lines(views(cs@)),
{
    proof {
        reveal_strlit("\n");
        assert("\n"@ =~= seq!['\n']);
    }
    let ghost vs = views(cs@);
    let mut out = String::new();
    let mut i: usize = 0;
    while i < cs.len()
        invariant
            vs == views(cs@),
            i <= cs.len(),
            out@ == lines(vs.take(i as int)),
        decreases cs.len() - i,
    {
        proof {
            assert(vs.take(i + 1).drop_last() =~= vs.take(i as int));
            assert(vs.take(i + 1).last() == cs@[i as int]@);
        }
        let ghost before = out@;
        proof {
            reveal_strlit("\n");
            assert("\n"@ =~= seq!['\n']);
        }
        out.append(cs[i].as_str());
        out.append("\n");
        proof {
            let t = vs.take(i + 1);
            assert(t.len() > 0);
            assert(lines(t) == lines(t.drop_last()) + t.last() + seq!['\n']);
            assert(out@ =~= before + cs@[i as int]@ + seq!['\n']);
        }
        i = i + 1;
    }
    assert(vs.take(cs.len() as int) =~= vs);
    out
}

pub(crate) fn choice_text_of(name: &str, v: &str, choices: &Vec<String>, marker: &str) -> (r:
    String)
    ensures
        r@ == choice_text(name@, v@, views(choices@), marker@),
{
    proof {
        reveal_strlit(" ");
        assert(" "@ =~= seq![' ']);
        reveal_strlit("\n");
        assert("\n"@ =~= seq!['\n']);
    }
    let l = label_of(name);
    let s = if !v.is_empty() {
        l.concat(" ").concat(v)
    } else if choices.len() > 0 {
        let body = lines_of(choices);
        l.concat("\n").concat(marker).concat("\n").concat(body.as_str())
    } else {
        l
    };
    trim_str(s.as_str())
}

pub fn same_word_of(s: &str, w: &str) -> (r: bool)
    ensures
        r == same_word(s@, w@),
{
    let n = s.unicode_len();
    if n != w.unicode_len() {
        return false;
    }
    let mut i: usize = 0;
    while i < n
        invariant
            n == s@.len(),
            n == w@.len(),
            i <= n,
            forall|j: int| 0 <= j < i ==> same_letter(#[trigger] s@[j], w@[j]),
        decreases n - i,
    {
        let c = s.get_char(i);
        let wc = w.get_char(i);
        if !(c == wc || ('A' <= c && c <= 'Z' && (c as u32) + 32 == (wc as u32))) {
            return false;
        }
        i = i + 1;
    }
    true
}

// ---------------------------------------------------------------------------
// Fields
/// What every field kind offers: its name, its value as one text, and its
/// rendering as a section of a form.
pub trait FormField {
    spec fn spec_name(&self) -> Seq<char>;

    spec fn spec_value(&self) -> Seq<char>;

    spec fn spec_text(&self) -> Seq<char>;

    fn name(&self) -> (r: &str)
        ensures
            r@ == self.spec_name(),
    ;

    fn value(&self) -> (r: String)
        ensures
            r@ == self.spec_value(),
    ;

    fn as_string(&self) -> (r: String)
        ensures
            r@ == self.spec_text(),
    ;
}

/// A required value on one line.
pub struct TextField {
    pub name: String,
    pub value: String,
}

impl TextField {
    pub fn new(name: &str, value: &str) -> (r: Self)
        ensures
            r.name@ == name@,
            r.value@ == value@,
    {
        TextField { name: String::from_str(name), value: String::from_str(value) }
    }

    /// Reads the field from its section: the value is what follows the
    /// label, trimmed, and may not be empty.
    pub fn from_input_str(name: &str, input: &str) -> (r: Result<Self, FormError>)
        ensures
            !contains(input@, name@) ==> (r matches Err(e) && e@ == malformed(name@)),
            contains(input@, name@) && after_label(name@, input@).len() == 0 ==> (r matches Err(e)
                && e@ == required_empty(name@)),
            contains(input@, name@) && after_label(name@, input@).len() > 0 ==> (r matches Ok(f)
                && f.name@ == name@ && f.value@ == after_label(name@, input@)),
    {
        if !contains_str(input, name) {
            return Err(FormError::MalformedField(String::from_str(name)));
        }
        let val = after_label_of(name, input);
        if val.as_str().is_empty() {
            return Err(FormError::RequiredFieldEmpty(String::from_str(name)));
        }
        Ok(TextField::new(name, val.as_str()))
    }
}

impl FormField for TextField {
    open spec fn spec_name(&self) -> Seq<char> {
        self.name@
    }

    open spec fn spec_value(&self) -> Seq<char> {
        self.value@
    }

    open spec fn spec_text(&self) -> Seq<char> {
        inline_text(self.name@, self.value@)
    }

    fn name(&self) -> (r: &str) {
        self.name.as_str()
    }

    fn value(&self) -> (r: String) {
        self.value.clone()
    }

    fn as_string(&self) -> (r: String) {
        inline_text_of(self.name.as_str(), self.value.as_str())
    }
}

/// A required value that may span lines, below its label.
pub struct MultilineTextField {
    pub name: String,
    pub value: String,
}

/// What a multi-line text section holds: after the label, any further
/// colons are dropped too.
pub open spec fn multiline_value(name: Seq<char>, input: Seq<char>) -> Seq<char> {
    trim(strip_all(strip_once(input, label(name)), seq![':']))
}

impl MultilineTextField {
    pub fn new(name: &str, value: &str) -> (r: Self)
        ensures
            r.name@ == name@,
            r.value@ == value@,
    {
        MultilineTextField { name: String::from_str(name), value: String::from_str(value) }
    }

    pub fn from_input_str(name: &str, input: &str) -> (r: Result<Self, FormError>)
        ensures
            !contains(input@, name@) ==> (r matches Err(e) && e@ == malformed(name@)),
            contains(input@, name@) && multiline_value(name@, input@).len() == 0 ==> (r matches Err(
                e,
            ) && e@ == required_empty(name@)),
            contains(input@, name@) && multiline_value(name@, input@).len() > 0 ==> (r matches Ok(f)
                && f.name@ == name@ && f.value@ == multiline_value(name@, input@)),
    {
        if !contains_str(input, name) {
            return Err(FormError::MalformedField(String::from_str(name)));
        }
        proof {
            reveal_strlit(":");
            assert(":"@ =~= seq![':']);
        }
        let l = label_of(name);
        let s1 = strip_once_str(input, l.as_str());
        let s2 = strip_all_str(s1.as_str(), ":");
        let val = trim_str(s2.as_str());
        if val.as_str().is_empty() {
            return Err(FormError::RequiredFieldEmpty(String::from_str(name)));
        }
        Ok(MultilineTextField::new(name, val.as_str()))
    }
}

impl FormField for MultilineTextField {
    open spec fn spec_name(&self) -> Seq<char> {
        self.name@
    }

    open spec fn spec_value(&self) -> Seq<char> {
        self.value@
    }

    open spec fn spec_text(&self) -> Seq<char> {
        block(self.name@, self.value@)
    }

    fn name(&self) -> (r: &str) {
        self.name.as_str()
    }

    fn value(&self) -> (r: String) {
        self.value.clone()
    }

    fn as_string(&self) -> (r: String) {
        block_of(self.name.as_str(), self.value.as_str())
    }
}

/// A value that may span lines and may be left empty.
pub struct OptionalMultilineTextField {
    pub name: String,
    pub value: String,
}

impl OptionalMultilineTextField {
    pub fn new(name: &str, value: &str) -> (r: Self)
        ensures
            r.name@ == name@,
            r.value@ == value@,
    {
        OptionalMultilineTextField { name: String::from_str(name), value: String::from_str(value) }
    }

    pub fn from_input_str(name: &str, input: &str) -> (r: Result<Self, FormError>)
        ensures
            !contains(input@, name@) ==> (r matches Err(e) && e@ == malformed(name@)),
            contains(input@, name@) ==> (r matches Ok(f) && f.name@ == name@ && f.value@
                == after_label(name@, input@)),
    {
        if !contains_str(input, name) {
            return Err(FormError::MalformedField(String::from_str(name)));
        }
        let val = after_label_of(name, input);
        Ok(OptionalMultilineTextField::new(name, val.as_str()))
    }
}

impl FormField for OptionalMultilineTextField {
    open spec fn spec_name(&self) -> Seq<char> {
        self.name@
    }

    open spec fn spec_value(&self) -> Seq<char> {
        self.value@
    }

    open spec fn spec_text(&self) -> Seq<char> {
        block(self.name@, self.value@)
    }

    fn name(&self) -> (r: &str) {
        self.name.as_str()
    }

    fn value(&self) -> (r: String) {
        self.value.clone()
    }

    fn as_string(&self) -> (r: String) {
        block_of(self.name.as_str(), self.value.as_str())
    }
}

/// Any number of values picked from candidates, separated by `;`.
pub struct OptionalChoiceListField {
    pub name: String,
    pub values: Vec<String>,
    pub choices: Vec<String>,
}

impl OptionalChoiceListField {
    pub fn new(name: &str, values: &Vec<String>) -> (r: Self)
        ensures
            r.name@ == name@,
            r.values@ == values@,
            r.choices@.len() == 0,
    {
        OptionalChoiceListField {
            name: String::from_str(name),
            values: copy_strs(values),
            choices: Vec::new(),
        }
    }

    /// Appends candidates to offer while the field has no value.
    pub fn add_choices(&mut self, choices: Vec<String>)
        ensures
            final(self).name == old(self).name,
            final(self).values == old(self).values,
            final(self).choices@ == old(self).choices@ + choices@,
    {
        let mut more = choices;
        self.choices.append(&mut more);
    }

    pub fn from_input_str(name: &str, input: &str) -> (r: Result<Self, FormError>)
        ensures
            !contains(input@, name@) ==> (r matches Err(e) && e@ == malformed(name@)),
            contains(input@, name@) ==> (r matches Ok(f) && f.name@ == name@ && views(f.values@)
                == list_items(after_label(name@, input@)) && f.choices@.len() == 0),
    {
        if !contains_str(input, name) {
            return Err(FormError::MalformedField(String::from_str(name)));
        }
        let val = after_label_of(name, input);
        let values = list_items_of(val.as_str());
        Ok(OptionalChoiceListField { name: String::from_str(name), values, choices: Vec::new() })
    }
}

impl FormField for OptionalChoiceListField {
    open spec fn spec_name(&self) -> Seq<char> {
        self.name@
    }

    open spec fn spec_value(&self) -> Seq<char> {
        join(views(self.values@), seq![';'])
    }

    open spec fn spec_text(&self) -> Seq<char> {
        choice_text(self.name@, self.spec_value(), views(self.choices@), choose_or_delete_marker())
    }

    fn name(&self) -> (r: &str) {
        self.name.as_str()
    }

    fn value(&self) -> (r: String) {
        proof {
            reveal_strlit(";");
            assert(";"@ =~= seq![';']);
        }
        join_strs(&self.values, ";")
    }

    fn as_string(&self) -> (r: String) {
        let v = self.value();
        choice_text_of(
            self.name.as_str(),
            v.as_str(),
            &self.choices,
            "## CHOOSE ONE OR DELETE ALL ##",
        )
    }
}

/// One or more values on one line, separated by `;`.
pub struct ListField {
    pub name: String,
    pub values: Vec<String>,
}

impl ListField {
    pub fn new(name: &str, values: &Vec<String>) -> (r: Self)
        ensures
            r.name@ == name@,
            r.values@ == values@,
    {
        ListField { name: String::from_str(name), values: copy_strs(values) }
    }

    pub fn from_input_str(name: &str, input: &str) -> (r: Result<Self, FormError>)
        ensures
            !contains(input@, name@) ==> (r matches Err(e) && e@ == malformed(name@)),
            contains(input@, name@) && after_label(name@, input@).len() == 0 ==> (r matches Err(e)
                && e@ == required_empty(name@)),
            contains(input@, name@) && after_label(name@, input@).len() > 0 ==> (r matches Ok(f)
                && f.name@ == name@ && views(f.values@) == list_items(after_label(name@, input@))),
    {
        if !contains_str(input, name) {
            return Err(FormError::MalformedField(String::from_str(name)));
        }
        let val = after_label_of(name, input);
        if val.as_str().is_empty() {
            return Err(FormError::RequiredFieldEmpty(String::from_str(name)));
        }
        let values = list_items_of(val.as_str());
        Ok(ListField { name: String::from_str(name), values })
    }
}

impl FormField for ListField {
    open spec fn spec_name(&self) -> Seq<char> {
        self.name@
    }

    open spec fn spec_value(&self) -> Seq<char> {
        join(views(self.values@), seq![';', ' '])
    }

    open spec fn spec_text(&self) -> Seq<char> {
        inline_text(self.name@, self.spec_value())
    }

    fn name(&self) -> (r: &str) {
        self.name.as_str()
    }

    fn value(&self) -> (r: String) {
        proof {
            reveal_strlit("; ");
            assert("; "@ =~= seq![';', ' ']);
        }
        join_strs(&self.values, "; ")
    }

    fn as_string(&self) -> (r: String) {
        let v = self.value();
        inline_text_of(self.name.as_str(), v.as_str())
    }
}

/// A value on one line that may be left empty.
pub struct OptionalTextField {
    pub name: String,
    pub value: String,
}

impl OptionalTextField {
    pub fn new(name: &str, value: &str) -> (r: Self)
        ensures
            r.name@ == name@,
            r.value@ == value@,
    {
        OptionalTextField { name: String::from_str(name), value: String::from_str(value) }
    }

    /// Reads the field from its section: the value is what follows the
    /// label, trimmed, and may be empty.
    pub fn from_input_str(name: &str, input: &str) -> (r: Result<Self, FormError>)
        ensures
            !contains(input@, name@) ==> (r matches Err(e) && e@ == malformed(name@)),
            contains(input@, name@) ==> (r matches Ok(f) && f.name@ == name@ && f.value@
                == after_label(name@, input@)),
    {
        if !contains_str(input, name) {
            return Err(FormError::MalformedField(String::from_str(name)));
        }
        let val = after_label_of(name, input);
        Ok(OptionalTextField::new(name, val.as_str()))
    }
}

impl FormField for OptionalTextField {
    open spec fn spec_name(&self) -> Seq<char> {
        self.name@
    }

    open spec fn spec_value(&self) -> Seq<char> {
        self.value@
    }

    open spec fn spec_text(&self) -> Seq<char> {
        inline_text(self.name@, self.value@)
    }

    fn name(&self) -> (r: &str) {
        self.name.as_str()
    }

    fn value(&self) -> (r: String) {
        self.value.clone()
    }

    fn as_string(&self) -> (r: String) {
        inline_text_of(self.name.as_str(), self.value.as_str())
    }
}

/// Values on one line, separated by `;`; may be left empty.
pub struct OptionalListField {
    pub name: String,
    pub values: Vec<String>,
}

impl OptionalListField {
    pub fn new(name: &str, values: &Vec<String>) -> (r: Self)
        ensures
            r.name@ == name@,
            r.values@ == values@,
    {
        OptionalListField { name: String::from_str(name), values: copy_strs(values) }
    }

    pub fn from_input_str(name: &str, input: &str) -> (r: Result<Self, FormError>)
        ensures
            !contains(input@, name@) ==> (r matches Err(e) && e@ == malformed(name@)),
            contains(input@, name@) ==> (r matches Ok(f) && f.name@ == name@ && views(f.values@)
                == list_items(after_label(name@, input@))),
    {
        if !contains_str(input, name) {
            return Err(FormError::MalformedField(String::from_str(name)));
        }
        let val = after_label_of(name, input);
        let values = list_items_of(val.as_str());
        Ok(OptionalListField { name: String::from_str(name), values })
    }
}

impl FormField for OptionalListField {
    open spec fn spec_name(&self) -> Seq<char> {
        self.name@
    }

    open spec fn spec_value(&self) -> Seq<char> {
        join(views(self.values@), seq![';', ' '])
    }

    open spec fn spec_text(&self) -> Seq<char> {
        inline_text(self.name@, self.spec_value())
    }

    fn name(&self) -> (r: &str) {
        self.name.as_str()
    }

    fn value(&self) -> (r: String) {
        proof {
            reveal_strlit("; ");
            assert("; "@ =~= seq![';', ' ']);
        }
        join_strs(&self.values, "; ")
    }

    fn as_string(&self) -> (r: String) {
        let v = self.value();
        inline_text_of(self.name.as_str(), v.as_str())
    }
}

/// One or more values, one per line below the label.
pub struct MultilineListField {
    pub name: String,
    pub values: Vec<String>,
}

impl MultilineListField {
    pub fn new(name: &str, values: &Vec<String>) -> (r: Self)
        ensures
            r.name@ == name@,
            r.values@ == values@,
    {
        MultilineListField { name: String::from_str(name), values: copy_strs(values) }
    }

    pub fn from_input_str(name: &str, input: &str) -> (r: Result<Self, FormError>)
        ensures
            !contains(input@, name@) ==> (r matches Err(e) && e@ == malformed(name@)),
            contains(input@, name@) && after_label(name@, input@).len() == 0 ==> (r matches Err(e)
                && e@ == required_empty(name@)),
            contains(input@, name@) && after_label(name@, input@).len() > 0 ==> (r matches Ok(f)
                && f.name@ == name@ && views(f.values@) == line_items(after_label(name@, input@))),
    {
        if !contains_str(input, name) {
            return Err(FormError::MalformedField(String::from_str(name)));
        }
        let val = after_label_of(name, input);
        if val.as_str().is_empty() {
            return Err(FormError::RequiredFieldEmpty(String::from_str(name)));
        }
        let values = line_items_of(val.as_str());
        Ok(MultilineListField { name: String::from_str(name), values })
    }
}

impl FormField for MultilineListField {
    open spec fn spec_name(&self) -> Seq<char> {
        self.name@
    }

    open spec fn spec_value(&self) -> Seq<char> {
        join(views(self.values@), seq!['\n'])
    }

    open spec fn spec_text(&self) -> Seq<char> {
        block(self.name@, self.spec_value())
    }

    fn name(&self) -> (r: &str) {
        self.name.as_str()
    }

    fn value(&self) -> (r: String) {
        proof {
            reveal_strlit("\n");
            assert("\n"@ =~= seq!['\n']);
        }
        join_strs(&self.values, "\n")
    }

    fn as_string(&self) -> (r: String) {
        let v = self.value();
        block_of(self.name.as_str(), v.as_str())
    }
}

/// Values one per line below the label; may be left empty.
pub struct OptionalMultilineListField {
    pub name: String,
    pub values: Vec<String>,
}

impl OptionalMultilineListField {
    pub fn new(name: &str, values: &Vec<String>) -> (r: Self)
        ensures
            r.name@ == name@,
            r.values@ == values@,
    {
        OptionalMultilineListField { name: String::from_str(name), values: copy_strs(values) }
    }

    pub fn from_input_str(name: &str, input: &str) -> (r: Result<Self, FormError>)
        ensures
            !contains(input@, name@) ==> (r matches Err(e) && e@ == malformed(name@)),
            contains(input@, name@) ==> (r matches Ok(f) && f.name@ == name@ && views(f.values@)
                == line_items(after_label(name@, input@))),
    {
        if !contains_str(input, name) {
            return Err(FormError::MalformedField(String::from_str(name)));
        }
        let val = after_label_of(name, input);
        let values = line_items_of(val.as_str());
        Ok(OptionalMultilineListField { name: String::from_str(name), values })
    }
}

impl FormField for OptionalMultilineListField {
    open spec fn spec_name(&self) -> Seq<char> {
        self.name@
    }

    open spec fn spec_value(&self) -> Seq<char> {
        join(views(self.values@), seq!['\n'])
    }

    open spec fn spec_text(&self) -> Seq<char> {
        block(self.name@, self.spec_value())
    }

    fn name(&self) -> (r: &str) {
        self.name.as_str()
    }

    fn value(&self) -> (r: String) {
        proof {
            reveal_strlit("\n");
            assert("\n"@ =~= seq!['\n']);
        }
        join_strs(&self.values, "\n")
    }

    fn as_string(&self) -> (r: String) {
        let v = self.value();
        block_of(self.name.as_str(), v.as_str())
    }
}

/// Exactly one value, picked from candidates.
pub struct ChoiceField {
    pub name: String,
    pub value: String,
    pub choices: Vec<String>,
}

impl ChoiceField {
    pub fn new(name: &str, value: &str) -> (r: Self)
        ensures
            r.name@ == name@,
            r.value@ == value@,
            r.choices@.len() == 0,
    {
        ChoiceField {
            name: String::from_str(name),
            value: String::from_str(value),
            choices: Vec::new(),
        }
    }

    /// Appends candidates to offer while the field has no value.
    pub fn add_choices(&mut self, choices: Vec<String>)
        ensures
            final(self).name == old(self).name,
            final(self).value == old(self).value,
            final(self).choices@ == old(self).choices@ + choices@,
    {
        let mut more = choices;
        self.choices.append(&mut more);
    }

    pub fn from_input_str(name: &str, input: &str) -> (r: Result<Self, FormError>)
        ensures
            !contains(input@, name@) ==> (r matches Err(e) && e@ == malformed(name@)),
            contains(input@, name@) && after_label(name@, input@).len() == 0 ==> (r matches Err(e)
                && e@ == required_empty(name@)),
            contains(input@, name@) && after_label(name@, input@).len() > 0 ==> (r matches Ok(f)
                && f.name@ == name@ && f.value@ == after_label(name@, input@) && f.choices@.len()
                == 0),
    {
        if !contains_str(input, name) {
            return Err(FormError::MalformedField(String::from_str(name)));
        }
        let val = after_label_of(name, input);
        if val.as_str().is_empty() {
            return Err(FormError::RequiredFieldEmpty(String::from_str(name)));
        }
        Ok(ChoiceField::new(name, val.as_str()))
    }
}

impl FormField for ChoiceField {
    open spec fn spec_name(&self) -> Seq<char> {
        self.name@
    }

    open spec fn spec_value(&self) -> Seq<char> {
        self.value@
    }

    open spec fn spec_text(&self) -> Seq<char> {
        choice_text(self.name@, self.value@, views(self.choices@), choose_one_marker())
    }

    fn name(&self) -> (r: &str) {
        self.name.as_str()
    }

    fn value(&self) -> (r: String) {
        self.value.clone()
    }

    fn as_string(&self) -> (r: String) {
        choice_text_of(self.name.as_str(), self.value.as_str(), &self.choices, "## CHOOSE ONE ##")
    }
}

/// At most one value, picked from candidates.
pub struct OptionalChoiceField {
    pub name: String,
    pub value: String,
    pub choices: Vec<String>,
}

impl OptionalChoiceField {
    pub fn new(name: &str, value: &str) -> (r: Self)
        ensures
            r.name@ == name@,
            r.value@ == value@,
            r.choices@.len() == 0,
    {
        OptionalChoiceField {
            name: String::from_str(name),
            value: String::from_str(value),
            choices: Vec::new(),
        }
    }

    /// Appends candidates to offer while the field has no value.
    pub fn add_choices(&mut self, choices: Vec<String>)
        ensures
            final(self).name == old(self).name,
            final(self).value == old(self).value,
            final(self).choices@ == old(self).choices@ + choices@,
    {
        let mut more = choices;
        self.choices.append(&mut more);
    }

    pub fn from_input_str(name: &str, input: &str) -> (r: Result<Self, FormError>)
        ensures
            !contains(input@, name@) ==> (r matches Err(e) && e@ == malformed(name@)),
            contains(input@, name@) ==> (r matches Ok(f) && f.name@ == name@ && f.value@
                == after_label(name@, input@) && f.choices@.len() == 0),
    {
        if !contains_str(input, name) {
            return Err(FormError::MalformedField(String::from_str(name)));
        }
        let val = after_label_of(name, input);
        Ok(OptionalChoiceField::new(name, val.as_str()))
    }
}

impl FormField for OptionalChoiceField {
    open spec fn spec_name(&self) -> Seq<char> {
        self.name@
    }

    open spec fn spec_value(&self) -> Seq<char> {
        self.value@
    }

    open spec fn spec_text(&self) -> Seq<char> {
        choice_text(self.name@, self.value@, views(self.choices@), choose_one_or_none_marker())
    }

    fn name(&self) -> (r: &str) {
        self.name.as_str()
    }

    fn value(&self) -> (r: String) {
        self.value.clone()
    }

    fn as_string(&self) -> (r: String) {
        choice_text_of(
            self.name.as_str(),
            self.value.as_str(),
            &self.choices,
            "## CHOOSE ONE OR NONE ##",
        )
    }
}

/// A yes-or-no flag.
pub struct BooleanField {
    pub name: String,
    pub value: bool,
}

impl BooleanField {
    pub fn new(name: &str, value: bool) -> (r: Self)
        ensures
            r.name@ == name@,
            r.value == value,
    {
        BooleanField { name: String::from_str(name), value }
    }

    /// Reads the flag: `yes` or `no` in any case of letters; anything else
    /// is malformed.
    pub fn from_input_str(name: &str, input: &str) -> (r: Result<Self, FormError>)
        ensures
            !contains(input@, name@) ==> (r matches Err(e) && e@ == malformed(name@)),
            contains(input@, name@) && after_label(name@, input@).len() == 0 ==> (r matches Err(e)
                && e@ == required_empty(name@)),
            contains(input@, name@) && after_label(name@, input@).len() > 0 && !same_word(
                after_label(name@, input@),
                yes_word(),
            ) && !same_word(after_label(name@, input@), no_word()) ==> (r matches Err(e) && e@
                == malformed(name@)),
            contains(input@, name@) && same_word(after_label(name@, input@), yes_word()) ==> (r
                matches Ok(f) && f.name@ == name@ && f.value),
            contains(input@, name@) && same_word(after_label(name@, input@), no_word()) ==> (r
                matches Ok(f) && f.name@ == name@ && !f.value),
    {
        if !contains_str(input, name) {
            return Err(FormError::MalformedField(String::from_str(name)));
        }
        let val = after_label_of(name, input);
        if val.as_str().is_empty() {
            return Err(FormError::RequiredFieldEmpty(String::from_str(name)));
        }
        proof {
            reveal_strlit("yes");
            assert("yes"@ =~= seq!['y', 'e', 's']);
            reveal_strlit("no");
            assert("no"@ =~= seq!['n', 'o']);
        }
        if same_word_of(val.as_str(), "yes") {
            Ok(BooleanField::new(name, true))
        } else if same_word_of(val.as_str(), "no") {
            Ok(BooleanField::new(name, false))
        } else {
            Err(FormError::MalformedField(String::from_str(name)))
        }
    }
}

impl FormField for BooleanField {
    open spec fn spec_name(&self) -> Seq<char> {
        self.name@
    }

    open spec fn spec_value(&self) -> Seq<char> {
        flag_word(self.value)
    }

    open spec fn spec_text(&self) -> Seq<char> {
        label(self.name@) + seq![' '] + flag_word(self.value)
    }

    fn name(&self) -> (r: &str) {
        self.name.as_str()
    }

    fn value(&self) -> (r: String) {
        proof {
            reveal_strlit("Yes");
            assert("Yes"@ =~= seq!['Y', 'e', 's']);
            reveal_strlit("No");
            assert("No"@ =~= seq!['N', 'o']);
        }
        if self.value {
            String::from_str("Yes")
        } else {
            String::from_str("No")
        }
    }

    fn as_string(&self) -> (r: String) {
        proof {
            reveal_strlit(" ");
            assert(" "@ =~= seq![' ']);
        }
        let v = self.value();
        label_of(self.name.as_str()).concat(" ").concat(v.as_str())
    }
}

} // verus!
