//! People named in a form: resolved against the people already known, and
//! merged across the role lists into one entry per name.
use crate::models::{copy_opt, person_views, Person, PersonType, PersonView};
use crate::text::{equal_strs, first_index, lemma_first_index, views};
use vstd::prelude::*;
use vstd::string::*;

verus! {

pub open spec fn person_names(v: Seq<PersonView>) -> Seq<Seq<char>> {
    Seq::new(v.len(), |i: int| v[i].name)
}

/// The person a name stands for in the given role: the first known person
/// of that name lends identity, description and title; an unknown name is a
/// new person, with identity 0.
pub open spec fn resolve_person(name: Seq<char>, known: Seq<PersonView>, t: PersonType) -> PersonView {
    let k = first_index(person_names(known), name);
    if k >= 0 {
        PersonView {
            id: known[k].id,
            name,
            historical_title: known[k].historical_title,
            description: known[k].description,
            types: seq![t],
        }
    } else {
        PersonView { id: 0, name, historical_title: None, description: None, types: seq![t] }
    }
}

pub open spec fn resolve_all(names: Seq<Seq<char>>, known: Seq<PersonView>, t: PersonType) -> Seq<
    PersonView,
> {
    Seq::new(names.len(), |i: int| resolve_person(names[i], known, t))
}

/// Adds one person with one role: a name already present gains the role,
/// unless it has it; a new name is appended.
pub open spec fn add_person(acc: Seq<PersonView>, p: PersonView) -> Seq<PersonView> {
    let k = first_index(person_names(acc), p.name);
    if k < 0 {
        acc.push(p)
    } else if acc[k].types.contains(p.types[0]) {
        acc
    } else {
        acc.update(k, PersonView { types: acc[k].types.push(p.types[0]), ..acc[k] })
    }
}

/// Adds people in order.
pub open spec fn add_people(acc: Seq<PersonView>, ps: Seq<PersonView>) -> Seq<PersonView>
    decreases ps.len(),
{
    if ps.len() == 0 {
        acc
    } else {
        add_person(add_people(acc, ps.drop_last()), ps.last())
    }
}

/// The people that the given names stand for, in the given role.
pub fn get_people_from_input(input: &Vec<String>, people: &Vec<Person>, person_type: PersonType) -> (r:
    Vec<Person>)
    ensures
        person_views(r@) == resolve_all(views(input@), person_views(people@), person_type),
{
    let mut result: Vec<Person> = Vec::new();
    let mut i: usize = 0;
    while i < input.len()
        invariant
            i <= input@.len(),
            result@.len() == i,
            forall|j: int|
                0 <= j < i ==> (#[trigger] result@[j])@ == resolve_person(
                    input@[j]@,
                    person_views(people@),
                    person_type,
                ),
        decreases input.len() - i,
    {
        let name = &input[i];
        let p = match find_person(people, name.as_str()) {
            Some(k) => {
                assert(person_views(people@)[k as int] == people@[k as int]@);
                Person {
                    id: people[k].id,
                    name: name.clone(),
                    historical_title: copy_opt(&people[k].historical_title),
                    description: copy_opt(&people[k].description),
                    types: vec![person_type],
                }
            },
            None => Person {
                id: 0,
                name: name.clone(),
                historical_title: None,
                description: None,
                types: vec![person_type],
            },
        };
        assert(p.types@ =~= seq![person_type]);
        result.push(p);
        i = i + 1;
    }
    assert(person_views(result@) =~= resolve_all(views(input@), person_views(people@), person_type));
    result
}

/// The first person of the list with the given name.
pub fn find_person(people: &Vec<Person>, name: &str) -> (r: Option<usize>)
    ensures
        ({
            let k = first_index(person_names(person_views(people@)), name@);
            &&& k < 0 ==> r is None
            &&& k >= 0 ==> (r matches Some(i) && i as int == k && k < people@.len())
        }),
{
    let ghost ns = person_names(person_views(people@));
    let mut i: usize = 0;
    while i < people.len()
        invariant
            ns == person_names(person_views(people@)),
            i <= people@.len(),
            forall|j: int| 0 <= j < i ==> #[trigger] ns[j] != name@,
        decreases people.len() - i,
    {
        if equal_strs(people[i].name.as_str(), name) {
            proof {
                lemma_first_index(ns, name@, i as int);
            }
            return Some(i);
        }
        i = i + 1;
    }
    proof {
        lemma_first_index(ns, name@, i as int);
    }
    None
}

pub(crate) fn has_type(types: &Vec<PersonType>, t: PersonType) -> (r: bool)
    ensures
        r == types@.contains(t),
{
    let mut i: usize = 0;
    while i < types.len()
        invariant
            i <= types@.len(),
            forall|j: int| 0 <= j < i ==> types@[j] != t,
        decreases types.len() - i,
    {
        if types[i] == t {
            return true;
        }
        i = i + 1;
    }
    false
}

/// Adds one person with one role to those gathered so far.
pub fn merge_person(acc: &mut Vec<Person>, p: Person)
    requires
        p.types@.len() >= 1,
    ensures
        person_views(final(acc)@) == add_person(person_views(old(acc)@), p@),
{
    let ghost before = person_views(acc@);
    match find_person(acc, p.name.as_str()) {
        None => {
            acc.push(p);
            assert(person_views(acc@) =~= before.push(p@));
        },
        Some(k) => {
            let t = p.types[0];
            assert(before[k as int] == acc@[k as int]@);
            if !has_type(&acc[k].types, t) {
                let mut q = acc.remove(k);
                q.types.push(t);
                acc.insert(k, q);
                assert(person_views(acc@) =~= before.update(
                    k as int,
                    PersonView { types: before[k as int].types.push(t), ..before[k as int] },
                ));
            }
        },
    }
}

/// Adds people in order to those gathered so far.
pub fn merge_people(acc: &mut Vec<Person>, ps: &Vec<Person>)
    requires
        forall|i: int| 0 <= i < ps@.len() ==> (#[trigger] ps@[i]).types@.len() >= 1,
    ensures
        person_views(final(acc)@) == add_people(person_views(old(acc)@), person_views(ps@)),
{
    let ghost start = person_views(acc@);
    let ghost all = person_views(ps@);
    let mut i: usize = 0;
    while i < ps.len()
        invariant
            all == person_views(ps@),
            i <= ps@.len(),
            forall|j: int| 0 <= j < ps@.len() ==> (#[trigger] ps@[j]).types@.len() >= 1,
            person_views(acc@) == add_people(start, all.take(i as int)),
        decreases ps.len() - i,
    {
        let p = ps[i].copied();
        proof {
            assert(all.take(i + 1).drop_last() =~= all.take(i as int));
            assert(all.take(i + 1).last() == p@);
        }
        merge_person(acc, p);
        i = i + 1;
    }
    assert(all.take(ps@.len() as int) =~= all);
}

} // verus!
