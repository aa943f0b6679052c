//! The form of a master video.
use crate::dates::{date_of, date_text, Date};
use crate::errors::{EditError, EditErrorView, FormError, FormErrorView};
use crate::fields::{
    ListField, MultilineTextField, OptionalChoiceListField, OptionalListField,
    OptionalMultilineListField, OptionalMultilineTextField, OptionalTextField, TextField,
};
use crate::forms::{multi, parse_form, single, value_of, values_of, Field, FieldView, Form, Kind};
use crate::models::{
    broadcast_views, category_of, category_text, file_views, person_views,
    Category, MasterVideo, MasterVideoView, NewsBroadcast, NewsBroadcastView, Person, PersonType,
    PersonView,
};
use crate::news::{broadcast_title, form_result, text_or_empty};
use crate::people::{add_people, has_type, get_people_from_input, merge_people, resolve_all};
use crate::text::{first_index, views};
use crate::timestamps::{event_lines, event_texts, events_from, events_from_lines};
use vstd::prelude::*;
use vstd::string::*;

verus! {

/// The labels of the role lists, in form order.
pub open spec fn role_labels() -> Seq<Seq<char>> {
    seq![
        "Eyewitnesses"@,
        "Fire"@,
        "Police"@,
        "Port Authority"@,
        "Reporters"@,
        "Survivors"@,
        "Victims"@,
        "Videographers"@,
    ]
}

/// The role each role list gives.
pub open spec fn role_types() -> Seq<PersonType> {
    seq![
        PersonType::Eyewitness,
        PersonType::Fire,
        PersonType::Police,
        PersonType::PortAuthority,
        PersonType::Reporter,
        PersonType::Survivor,
        PersonType::Victim,
        PersonType::Videographer,
    ]
}

pub open spec fn master_kinds() -> Seq<Kind> {
    seq![
        Kind::OptionalChoiceList,
        Kind::Text,
        Kind::List,
        Kind::OptionalText,
        Kind::MultilineText,
        Kind::OptionalList,
        Kind::OptionalMultilineList,
        Kind::OptionalMultilineText,
        Kind::OptionalList,
        Kind::OptionalList,
        Kind::OptionalList,
        Kind::OptionalList,
        Kind::OptionalList,
        Kind::OptionalList,
        Kind::OptionalList,
        Kind::OptionalList,
        Kind::OptionalMultilineList,
    ]
}

pub open spec fn master_labels() -> Seq<Seq<char>> {
    seq![
        "News Broadcasts"@,
        "Title"@,
        "Categories"@,
        "Date"@,
        "Description"@,
        "Links"@,
        "Timestamps"@,
        "NIST Notes"@,
    ] + role_labels() + seq!["NIST Files"@]
}

/// The names of the people who appear in the given role, in order.
pub open spec fn names_with(people: Seq<PersonView>, t: PersonType) -> Seq<Seq<char>>
    decreases people.len(),
{
    if people.len() == 0 {
        Seq::empty()
    } else if people.last().types.contains(t) {
        names_with(people.drop_last(), t).push(people.last().name)
    } else {
        names_with(people.drop_last(), t)
    }
}

pub open spec fn broadcast_titles(v: Seq<NewsBroadcastView>) -> Seq<Seq<char>> {
    Seq::new(v.len(), |i: int| broadcast_title(v[i]))
}

pub open spec fn category_texts(v: Seq<Category>) -> Seq<Seq<char>> {
    Seq::new(v.len(), |i: int| category_text(v[i]))
}

pub open spec fn paths(v: Seq<(Seq<char>, u64)>) -> Seq<Seq<char>> {
    Seq::new(v.len(), |i: int| v[i].0)
}

pub open spec fn role_field(people: Seq<PersonView>, i: int) -> FieldView {
    multi(Kind::OptionalList, role_labels()[i], names_with(people, role_types()[i]), Seq::empty())
}

/// The fields of a master video's form.
pub open spec fn master_form(m: MasterVideoView) -> Seq<FieldView> {
    seq![
        multi(
            Kind::OptionalChoiceList,
            "News Broadcasts"@,
            broadcast_titles(m.news_broadcasts),
            Seq::empty(),
        ),
        single(Kind::Text, "Title"@, m.title, Seq::empty()),
        multi(Kind::List, "Categories"@, category_texts(m.categories), Seq::empty()),
        single(
            Kind::OptionalText,
            "Date"@,
            match m.date {
                Some(d) => date_text(d),
                None => Seq::empty(),
            },
            Seq::empty(),
        ),
        single(Kind::MultilineText, "Description"@, m.description, Seq::empty()),
        multi(Kind::OptionalList, "Links"@, m.links, Seq::empty()),
        multi(Kind::OptionalMultilineList, "Timestamps"@, event_texts(m.timestamps), Seq::empty()),
        single(Kind::OptionalMultilineText, "NIST Notes"@, text_or_empty(m.nist_notes), Seq::empty()),
    ] + Seq::new(8, |i: int| role_field(m.people, i)) + seq![
        multi(Kind::OptionalMultilineList, "NIST Files"@, paths(m.nist_files), Seq::empty()),
    ]
}

/// Each named broadcast, looked up by what it is called; the first name
/// that matches none is the error.
pub open spec fn broadcasts_from(names: Seq<Seq<char>>, known: Seq<NewsBroadcastView>) -> Result<
    Seq<NewsBroadcastView>,
    EditErrorView,
>
    decreases names.len(),
{
    if names.len() == 0 {
        Ok(Seq::empty())
    } else {
        match broadcasts_from(names.drop_last(), known) {
            Err(e) => Err(e),
            Ok(bs) => {
                let k = first_index(broadcast_titles(known), names.last());
                if k < 0 {
                    Err(EditErrorView::NotInList(names.last(), "broadcasts"@))
                } else {
                    Ok(bs.push(known[k]))
                }
            },
        }
    }
}

/// Each named category; the first unknown name is the error.
pub open spec fn categories_from(names: Seq<Seq<char>>) -> Result<Seq<Category>, EditErrorView>
    decreases names.len(),
{
    if names.len() == 0 {
        Ok(Seq::empty())
    } else {
        match categories_from(names.drop_last()) {
            Err(e) => Err(e),
            Ok(cs) => match category_of(names.last()) {
                None => Err(EditErrorView::InvalidCategory(names.last())),
                Some(c) => Ok(cs.push(c)),
            },
        }
    }
}

/// The people of the first `n` role lists, merged into one entry per name.
pub open spec fn people_from(fs: Seq<FieldView>, known: Seq<PersonView>, n: nat) -> Result<
    Seq<PersonView>,
    EditErrorView,
>
    decreases n,
{
    if n == 0 {
        Ok(Seq::empty())
    } else {
        match people_from(fs, known, (n - 1) as nat) {
            Err(e) => Err(e),
            Ok(acc) => match values_of(fs, role_labels()[n - 1]) {
                Err(e) => Err(EditErrorView::Form(e)),
                Ok(names) => Ok(add_people(acc, resolve_all(names, known, role_types()[n - 1]))),
            },
        }
    }
}

/// A date field's value: none when left empty, else the date chrono reads.
pub open spec fn optional_date(dt: Seq<char>) -> Result<Option<Date>, EditErrorView> {
    if dt.len() == 0 {
        Ok(None)
    } else {
        match date_of(dt) {
            None => Err(EditErrorView::InvalidDate(dt)),
            Some(d) => Ok(Some(d)),
        }
    }
}

/// The master video a completed form describes.
pub open spec fn master_from_fields(
    id: i32,
    fs: Seq<FieldView>,
    broadcasts: Seq<NewsBroadcastView>,
    known: Seq<PersonView>,
) -> Result<MasterVideoView, EditErrorView> {
    match values_of(fs, "News Broadcasts"@) {
        Err(e) => Err(EditErrorView::Form(e)),
        Ok(bn) => match broadcasts_from(bn, broadcasts) {
            Err(e) => Err(e),
            Ok(bs) => match value_of(fs, "Title"@) {
                Err(e) => Err(EditErrorView::Form(e)),
                Ok(title) => match values_of(fs, "Categories"@) {
                    Err(e) => Err(EditErrorView::Form(e)),
                    Ok(cn) => match categories_from(cn) {
                        Err(e) => Err(e),
                        Ok(categories) => match value_of(fs, "Date"@) {
                            Err(e) => Err(EditErrorView::Form(e)),
                            Ok(dt) => match value_of(fs, "Description"@) {
                                Err(e) => Err(EditErrorView::Form(e)),
                                Ok(description) => match values_of(fs, "Links"@) {
                                    Err(e) => Err(EditErrorView::Form(e)),
                                    Ok(links) => match values_of(fs, "Timestamps"@) {
                                        Err(e) => Err(EditErrorView::Form(e)),
                                        Ok(lines) => match events_from(lines) {
                                    Err(e) => Err(e),
                                    Ok(timestamps) => match value_of(fs, "NIST Notes"@) {
                                            Err(e) => Err(EditErrorView::Form(e)),
                                            Ok(notes) => match people_from(fs, known, 8) {
                                                Err(e) => Err(e),
                                                Ok(people) => match values_of(fs, "NIST Files"@) {
                                                    Err(e) => Err(EditErrorView::Form(e)),
                                                    Ok(files) => match optional_date(dt) {
                                                        Err(e) => Err(e),
                                                        Ok(date) => Ok(
                                                            MasterVideoView {
                                                                categories,
                                                                date,
                                                                description,
                                                                id,
                                                                links,
                                                                news_broadcasts: bs,
                                                                nist_files: Seq::new(
                                                                    files.len(),
                                                                    |i: int| (files[i], 0u64),
                                                                ),
                                                                nist_notes: if notes.len() == 0 {
                                                                    None
                                                                } else {
                                                                    Some(notes)
                                                                },
                                                                people,
                                                                timestamps,
                                                                title,
                                                            },
                                                        ),
                                                    },
                                                },
                                            },
                                        },
                                    },
                                    },
                                },
                            },
                        },
                    },
                },
            },
        },
    }
}

pub open spec fn master_result(r: Result<MasterVideo, EditError>) -> Result<
    MasterVideoView,
    EditErrorView,
> {
    match r {
        Ok(m) => Ok(m@),
        Err(e) => Err(e@),
    }
}

/// The names of the people who appear in the given role.
pub fn names_with_type(people: &Vec<Person>, t: PersonType) -> (r: Vec<String>)
    ensures
        views(r@) == names_with(person_views(people@), t),
{
    let ghost ps = person_views(people@);
    let mut out: Vec<String> = Vec::new();
    let mut i: usize = 0;
    while i < people.len()
        invariant
            ps == person_views(people@),
            i <= people@.len(),
            views(out@) == names_with(ps.take(i as int), t),
        decreases people.len() - i,
    {
        let ghost before = views(out@);
        proof {
            assert(ps.take(i + 1).drop_last() =~= ps.take(i as int));
            assert(ps.take(i + 1).last() == people@[i as int]@);
        }
        let found = has_type(&people[i].types, t);
        if found {
            out.push(people[i].name.clone());
            assert(views(out@) =~= before.push(people@[i as int].name@));
        }
        i = i + 1;
    }
    assert(ps.take(people@.len() as int) =~= ps);
    out
}

fn broadcast_titles_of(v: &Vec<NewsBroadcast>) -> (r: Vec<String>)
    ensures
        views(r@) == broadcast_titles(broadcast_views(v@)),
{
    let mut out: Vec<String> = Vec::new();
    let mut i: usize = 0;
    while i < v.len()
        invariant
            i <= v@.len(),
            out@.len() == i,
            forall|k: int| 0 <= k < i ==> (#[trigger] out@[k])@ == broadcast_title(v@[k]@),
        decreases v.len() - i,
    {
        out.push(v[i].to_string());
        i = i + 1;
    }
    assert(views(out@) =~= broadcast_titles(broadcast_views(v@)));
    out
}

fn category_texts_of(v: &Vec<Category>) -> (r: Vec<String>)
    ensures
        views(r@) == category_texts(v@),
{
    let mut out: Vec<String> = Vec::new();
    let mut i: usize = 0;
    while i < v.len()
        invariant
            i <= v@.len(),
            out@.len() == i,
            forall|k: int| 0 <= k < i ==> (#[trigger] out@[k])@ == category_text(v@[k]),
        decreases v.len() - i,
    {
        out.push(v[i].to_string());
        i = i + 1;
    }
    assert(views(out@) =~= category_texts(v@));
    out
}

fn paths_of(v: &Vec<(String, u64)>) -> (r: Vec<String>)
    ensures
        views(r@) == paths(file_views(v@)),
{
    let mut out: Vec<String> = Vec::new();
    let mut i: usize = 0;
    while i < v.len()
        invariant
            i <= v@.len(),
            out@.len() == i,
            forall|k: int| 0 <= k < i ==> (#[trigger] out@[k])@ == v@[k].0@,
        decreases v.len() - i,
    {
        out.push(v[i].0.clone());
        i = i + 1;
    }
    assert(views(out@) =~= paths(file_views(v@)));
    out
}

impl Form {
    /// The form of a master video. Its people are listed under each role
    /// they have.
    pub fn from_master_video(model: &MasterVideo) -> (r: Form)
        ensures
            r@ == master_form(model@),
    {
        let mut form = Form::new();
        let titles = broadcast_titles_of(&model.news_broadcasts);
        let broadcasts = OptionalChoiceListField::new("News Broadcasts", &titles);
        assert(views(broadcasts.choices@) =~= Seq::<Seq<char>>::empty());
        form.add_field(Field::OptionalChoiceList(broadcasts));
        form.add_field(Field::Text(TextField::new("Title", model.title.as_str())));
        let categories = category_texts_of(&model.categories);
        form.add_field(Field::List(ListField::new("Categories", &categories)));
        let date = match model.date {
            Some(d) => d.to_string(),
            None => String::new(),
        };
        form.add_field(Field::OptionalText(OptionalTextField::new("Date", date.as_str())));
        form.add_field(
            Field::MultilineText(MultilineTextField::new("Description", model.description.as_str())),
        );
        form.add_field(Field::OptionalList(OptionalListField::new("Links", &model.links)));
        let events = event_lines(&model.timestamps);
        form.add_field(
            Field::OptionalMultilineList(OptionalMultilineListField::new("Timestamps", &events)),
        );
        let notes = match &model.nist_notes {
            Some(n) => n.clone(),
            None => String::new(),
        };
        form.add_field(
            Field::OptionalMultilineText(
                OptionalMultilineTextField::new("NIST Notes", notes.as_str()),
            ),
        );
        let labels = vec![
            "Eyewitnesses",
            "Fire",
            "Police",
            "Port Authority",
            "Reporters",
            "Survivors",
            "Victims",
            "Videographers",
        ];
        let types = vec![
            PersonType::Eyewitness,
            PersonType::Fire,
            PersonType::Police,
            PersonType::PortAuthority,
            PersonType::Reporter,
            PersonType::Survivor,
            PersonType::Victim,
            PersonType::Videographer,
        ];
        let ghost head = form@;
        assert(labels@.map_values(|n: &str| n@) =~= role_labels());
        assert(types@ =~= role_types());
        let mut i: usize = 0;
        while i < 8
            invariant
                labels@.len() == 8,
                types@ == role_types(),
                labels@.map_values(|n: &str| n@) == role_labels(),
                i <= 8,
                head.len() == 8,
                form@ =~~= head + Seq::new(i as nat, |k: int| role_field(model@.people, k)),
            decreases 8 - i,
        {
            let names = names_with_type(&model.people, types[i]);
            proof {
                assert(labels@.map_values(|n: &str| n@)[i as int] == labels@[i as int]@);
            }
            form.add_field(Field::OptionalList(OptionalListField::new(labels[i], &names)));
            i = i + 1;
        }
        let files = paths_of(&model.nist_files);
        form.add_field(
            Field::OptionalMultilineList(OptionalMultilineListField::new("NIST Files", &files)),
        );
        assert(form@ =~~= master_form(model@));
        form
    }

    /// Reads a master video's completed form.
    pub fn from_master_video_str(s: &str) -> (r: Result<Form, FormError>)
        ensures
            form_result(r) == parse_form(master_kinds(), master_labels(), s@),
    {
        let kinds = vec![
            Kind::OptionalChoiceList,
            Kind::Text,
            Kind::List,
            Kind::OptionalText,
            Kind::MultilineText,
            Kind::OptionalList,
            Kind::OptionalMultilineList,
            Kind::OptionalMultilineText,
            Kind::OptionalList,
            Kind::OptionalList,
            Kind::OptionalList,
            Kind::OptionalList,
            Kind::OptionalList,
            Kind::OptionalList,
            Kind::OptionalList,
            Kind::OptionalList,
            Kind::OptionalMultilineList,
        ];
        let names = vec![
            "News Broadcasts",
            "Title",
            "Categories",
            "Date",
            "Description",
            "Links",
            "Timestamps",
            "NIST Notes",
            "Eyewitnesses",
            "Fire",
            "Police",
            "Port Authority",
            "Reporters",
            "Survivors",
            "Victims",
            "Videographers",
            "NIST Files",
        ];
        assert(kinds@ =~= master_kinds());
        assert(names@.map_values(|n: &str| n@) =~= master_labels());
        Form::parse_with(&kinds, &names, s)
    }
}

fn values_or_error(form: &Form, name: &str) -> (r: Result<Vec<String>, EditError>)
    ensures
        r matches Ok(v) ==> values_of(form@, name@) == Ok::<Seq<Seq<char>>, FormErrorView>(
            views(v@),
        ),
        r matches Err(e) ==> values_of(form@, name@) matches Err(fe) && e@ == EditErrorView::Form(
            fe,
        ),
{
    match form.get_values(name) {
        Ok(v) => Ok(v),
        Err(e) => Err(EditError::Form(e)),
    }
}

fn value_or_error(form: &Form, name: &str) -> (r: Result<String, EditError>)
    ensures
        r matches Ok(v) ==> value_of(form@, name@) == Ok::<Seq<char>, FormErrorView>(v@),
        r matches Err(e) ==> value_of(form@, name@) matches Err(fe) && e@ == EditErrorView::Form(
            fe,
        ),
{
    match form.get_value(name) {
        Ok(v) => Ok(v),
        Err(e) => Err(EditError::Form(e)),
    }
}

/// Looks up each named broadcast by what it is called.
pub fn resolve_broadcasts(names: &Vec<String>, known: &Vec<NewsBroadcast>) -> (r: Result<
    Vec<NewsBroadcast>,
    EditError,
>)
    ensures
        r matches Ok(v) ==> broadcasts_from(views(names@), broadcast_views(known@)) == Ok::<
            Seq<NewsBroadcastView>,
            EditErrorView,
        >(broadcast_views(v@)),
        r matches Err(e) ==> broadcasts_from(views(names@), broadcast_views(known@)) == Err::<
            Seq<NewsBroadcastView>,
            EditErrorView,
        >(e@),
{
    let titles = broadcast_titles_of(known);
    let ghost ns = views(names@);
    let ghost ts = views(titles@);
    let mut out: Vec<NewsBroadcast> = Vec::new();
    let mut i: usize = 0;
    assert(ns.take(0) =~= Seq::<Seq<char>>::empty());
    assert(broadcast_views(out@) =~= Seq::<NewsBroadcastView>::empty());
    while i < names.len()
        invariant
            ns == views(names@),
            ts == views(titles@),
            ts == broadcast_titles(broadcast_views(known@)),
            i <= names@.len(),
            broadcasts_from(ns.take(i as int), broadcast_views(known@)) == Ok::<
                Seq<NewsBroadcastView>,
                EditErrorView,
            >(broadcast_views(out@)),
        decreases names.len() - i,
    {
        proof {
            assert(ns.take(i + 1).drop_last() =~= ns.take(i as int));
            assert(ns.take(i + 1).last() == names@[i as int]@);
        }
        let found = crate::text::find_str(&titles, names[i].as_str());
        proof {
            crate::text::lemma_first_index_range(ts, names@[i as int]@);
        }
        if found.is_none() {
            proof {
                lemma_missing_stays(ns, broadcast_views(known@), (i + 1) as int);
            }
            return Err(EditError::NotInList(names[i].clone(), String::from_str("broadcasts")));
        }
        let k = found.unwrap();
        let ghost before = broadcast_views(out@);
        out.push(known[k].copied());
        assert(broadcast_views(out@) =~= before.push(broadcast_views(known@)[k as int]));
        i = i + 1;
    }
    assert(ns.take(names@.len() as int) =~= ns);
    Ok(out)
}

/// Once a prefix of the names fails, all of them fail the same way.
proof fn lemma_missing_stays(names: Seq<Seq<char>>, known: Seq<NewsBroadcastView>, i: int)
    requires
        0 <= i <= names.len(),
        broadcasts_from(names.take(i), known) is Err,
    ensures
        broadcasts_from(names, known) == broadcasts_from(names.take(i), known),
    decreases names.len() - i,
{
    if i < names.len() {
        assert(names.take(i + 1).drop_last() =~= names.take(i));
        lemma_missing_stays(names, known, i + 1);
    } else {
        assert(names.take(i) =~= names);
    }
}

proof fn lemma_category_stays(names: Seq<Seq<char>>, i: int)
    requires
        0 <= i <= names.len(),
        categories_from(names.take(i)) is Err,
    ensures
        categories_from(names) == categories_from(names.take(i)),
    decreases names.len() - i,
{
    if i < names.len() {
        assert(names.take(i + 1).drop_last() =~= names.take(i));
        lemma_category_stays(names, i + 1);
    } else {
        assert(names.take(i) =~= names);
    }
}

/// The categories the given texts name.
pub fn categories_from_names(names: &Vec<String>) -> (r: Result<Vec<Category>, EditError>)
    ensures
        r matches Ok(v) ==> categories_from(views(names@)) == Ok::<Seq<Category>, EditErrorView>(
            v@,
        ),
        r matches Err(e) ==> categories_from(views(names@)) == Err::<Seq<Category>, EditErrorView>(
            e@,
        ),
{
    let ghost ns = views(names@);
    let mut out: Vec<Category> = Vec::new();
    let mut i: usize = 0;
    assert(ns.take(0) =~= Seq::<Seq<char>>::empty());
    while i < names.len()
        invariant
            ns == views(names@),
            i <= names@.len(),
            categories_from(ns.take(i as int)) == Ok::<Seq<Category>, EditErrorView>(out@),
        decreases names.len() - i,
    {
        proof {
            assert(ns.take(i + 1).drop_last() =~= ns.take(i as int));
            assert(ns.take(i + 1).last() == names@[i as int]@);
        }
        match Category::from_text(names[i].as_str()) {
            Some(c) => {
                out.push(c);
            },
            None => {
                proof {
                    lemma_category_stays(ns, (i + 1) as int);
                }
                return Err(EditError::InvalidCategory(names[i].clone()));
            },
        }
        i = i + 1;
    }
    assert(ns.take(names@.len() as int) =~= ns);
    Ok(out)
}

proof fn lemma_people_stays(fs: Seq<FieldView>, known: Seq<PersonView>, i: nat, m: nat)
    requires
        i <= m,
        people_from(fs, known, i) is Err,
    ensures
        people_from(fs, known, m) == people_from(fs, known, i),
    decreases m - i,
{
    if i < m {
        lemma_people_stays(fs, known, i, (m - 1) as nat);
    }
}

/// The people a master video's form names, one entry per name, with every
/// role under which the name is listed.
pub fn people_from_form(form: &Form, known: &Vec<Person>) -> (r: Result<Vec<Person>, EditError>)
    ensures
        r matches Ok(v) ==> people_from(form@, person_views(known@), 8) == Ok::<
            Seq<PersonView>,
            EditErrorView,
        >(person_views(v@)),
        r matches Err(e) ==> people_from(form@, person_views(known@), 8) == Err::<
            Seq<PersonView>,
            EditErrorView,
        >(e@),
{
    let labels = vec![
        "Eyewitnesses",
        "Fire",
        "Police",
        "Port Authority",
        "Reporters",
        "Survivors",
        "Victims",
        "Videographers",
    ];
    let types = vec![
        PersonType::Eyewitness,
        PersonType::Fire,
        PersonType::Police,
        PersonType::PortAuthority,
        PersonType::Reporter,
        PersonType::Survivor,
        PersonType::Victim,
        PersonType::Videographer,
    ];
    assert(labels@.map_values(|n: &str| n@) =~= role_labels());
    assert(types@ =~= role_types());
    let mut acc: Vec<Person> = Vec::new();
    assert(person_views(acc@) =~= Seq::<PersonView>::empty());
    let mut i: usize = 0;
    while i < 8
        invariant
            labels@.len() == 8,
            types@ == role_types(),
            labels@.map_values(|n: &str| n@) == role_labels(),
            i <= 8,
            people_from(form@, person_views(known@), i as nat) == Ok::<
                Seq<PersonView>,
                EditErrorView,
            >(person_views(acc@)),
        decreases 8 - i,
    {
        proof {
            assert(labels@.map_values(|n: &str| n@)[i as int] == labels@[i as int]@);
        }
        let names = match values_or_error(form, labels[i]) {
            Ok(v) => v,
            Err(e) => {
                proof {
                    lemma_people_stays(form@, person_views(known@), (i + 1) as nat, 8);
                }
                return Err(e);
            },
        };
        let found = get_people_from_input(&names, known, types[i]);
        proof {
            assert forall|j: int| 0 <= j < found@.len() implies (#[trigger] found@[j]).types@.len()
                >= 1 by {
                assert(person_views(found@)[j] == found@[j]@);
            }
        }
        merge_people(&mut acc, &found);
        i = i + 1;
    }
    Ok(acc)
}

/// The master video a completed form describes, with the given identity.
/// Broadcasts are looked up by what they are called, people by name; NIST
/// files come with size 0, for the catalogue to fill in.
pub fn master_video_from_form(
    id: i32,
    form: &Form,
    news_broadcasts: &Vec<NewsBroadcast>,
    people: &Vec<Person>,
) -> (r: Result<MasterVideo, EditError>)
    ensures
        master_result(r) == master_from_fields(
            id,
            form@,
            broadcast_views(news_broadcasts@),
            person_views(people@),
        ),
{
    let names = match values_or_error(form, "News Broadcasts") {
        Ok(v) => v,
        Err(e) => return Err(e),
    };
    let broadcasts = match resolve_broadcasts(&names, news_broadcasts) {
        Ok(v) => v,
        Err(e) => return Err(e),
    };
    let title = match value_or_error(form, "Title") {
        Ok(v) => v,
        Err(e) => return Err(e),
    };
    let category_names = match values_or_error(form, "Categories") {
        Ok(v) => v,
        Err(e) => return Err(e),
    };
    let categories = match categories_from_names(&category_names) {
        Ok(v) => v,
        Err(e) => return Err(e),
    };
    let date_input = match value_or_error(form, "Date") {
        Ok(v) => v,
        Err(e) => return Err(e),
    };
    let description = match value_or_error(form, "Description") {
        Ok(v) => v,
        Err(e) => return Err(e),
    };
    let links = match values_or_error(form, "Links") {
        Ok(v) => v,
        Err(e) => return Err(e),
    };
    let timestamp_lines = match values_or_error(form, "Timestamps") {
        Ok(v) => v,
        Err(e) => return Err(e),
    };
    let timestamps = match events_from_lines(&timestamp_lines) {
        Ok(v) => v,
        Err(e) => return Err(e),
    };
    let notes = match value_or_error(form, "NIST Notes") {
        Ok(v) => v,
        Err(e) => return Err(e),
    };
    let video_people = match people_from_form(form, people) {
        Ok(v) => v,
        Err(e) => return Err(e),
    };
    let file_names = match values_or_error(form, "NIST Files") {
        Ok(v) => v,
        Err(e) => return Err(e),
    };
    let date = if date_input.as_str().is_empty() {
        None
    } else {
        match Date::parse(date_input.as_str()) {
            Some(d) => Some(d),
            None => return Err(EditError::InvalidDate(date_input)),
        }
    };
    let mut nist_files: Vec<(String, u64)> = Vec::new();
    let mut i: usize = 0;
    while i < file_names.len()
        invariant
            i <= file_names@.len(),
            nist_files@.len() == i,
            forall|k: int|
                0 <= k < i ==> (#[trigger] nist_files@[k]).0@ == file_names@[k]@ && nist_files@[k].1
                    == 0,
        decreases file_names.len() - i,
    {
        nist_files.push((file_names[i].clone(), 0u64));
        i = i + 1;
    }
    let ghost fv = views(file_names@);
    assert(file_views(nist_files@) =~= Seq::new(fv.len(), |k: int| (fv[k], 0u64)));
    let nist_notes = if notes.as_str().is_empty() {
        None
    } else {
        Some(notes)
    };
    Ok(
        MasterVideo {
            categories,
            date,
            description,
            id,
            links,
            news_broadcasts: broadcasts,
            nist_files,
            nist_notes,
            people: video_people,
            timestamps,
            title,
        },
    )
}

} // verus!
