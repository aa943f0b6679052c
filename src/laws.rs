//! What holds of every form: the laws of the codec, proved over the spec
//! functions that the codec's contracts use.
use crate::errors::{EditErrorView, FormErrorView};
use crate::fields::{
    after_label, choose_or_delete_marker, label, lines, multiline_value,
};
use crate::forms::{field_text, multi, parse_field, parse_form, section_delimiter, single, value_of, FieldView, Kind};
use crate::masters::{master_kinds, master_labels};
use crate::models::{NewsAffiliateView, NewsNetworkView};
use crate::news::{
    affiliate_from_fields, affiliate_kinds, affiliate_labels, affiliate_names, broadcast_from_fields,
    broadcast_kinds, broadcast_labels, network_kinds, network_labels, network_names,
};
use crate::nist::{nist_video_kinds, nist_video_labels, tape_kinds, tape_labels};
use crate::text::{clean_piece, contains, first_index, join, lemma_split_join, match_at, split};
use crate::videos::{video_kinds, video_labels};
use crate::dates::date_of;
use crate::masters::{people_from, role_labels, role_types};
use crate::models::{PersonType, PersonView};
use crate::people::{add_people, add_person, person_names, resolve_all, resolve_person};
use crate::forms::values_of;
use vstd::prelude::*;

verus! {

/// A completed form whose text does not have exactly one section per field
/// is rejected as malformed, whatever the record.
pub proof fn section_count_law(s: Seq<char>)
    ensures
        split(s, section_delimiter()).len() != 17 ==> parse_form(master_kinds(), master_labels(), s)
            == Err::<Seq<FieldView>, FormErrorView>(FormErrorView::MalformedForm),
        split(s, section_delimiter()).len() != 6 ==> parse_form(video_kinds(), video_labels(), s)
            == Err::<Seq<FieldView>, FormErrorView>(FormErrorView::MalformedForm),
        split(s, section_delimiter()).len() != 2 ==> parse_form(network_kinds(), network_labels(), s)
            == Err::<Seq<FieldView>, FormErrorView>(FormErrorView::MalformedForm),
        split(s, section_delimiter()).len() != 4 ==> parse_form(
            affiliate_kinds(),
            affiliate_labels(),
            s,
        ) == Err::<Seq<FieldView>, FormErrorView>(FormErrorView::MalformedForm),
        split(s, section_delimiter()).len() != 4 ==> parse_form(
            broadcast_kinds(),
            broadcast_labels(),
            s,
        ) == Err::<Seq<FieldView>, FormErrorView>(FormErrorView::MalformedForm),
        split(s, section_delimiter()).len() != 2 ==> parse_form(
            nist_video_kinds(),
            nist_video_labels(),
            s,
        ) == Err::<Seq<FieldView>, FormErrorView>(FormErrorView::MalformedForm),
        split(s, section_delimiter()).len() != 1 ==> parse_form(tape_kinds(), tape_labels(), s)
            == Err::<Seq<FieldView>, FormErrorView>(FormErrorView::MalformedForm),
{
    assert(master_kinds().len() == 17);
    assert(video_kinds().len() == 6);
    assert(network_kinds().len() == 2);
    assert(affiliate_kinds().len() == 4);
    assert(broadcast_kinds().len() == 4);
    assert(nist_video_kinds().len() == 2);
    assert(tape_kinds().len() == 1);
}

/// A required field left empty is an error; its optional counterpart reads
/// as empty.
pub proof fn required_field_law(name: Seq<char>, input: Seq<char>)
    requires
        contains(input, name),
        after_label(name, input).len() == 0,
    ensures
        parse_field(Kind::Text, name, input) == Err::<FieldView, FormErrorView>(
            FormErrorView::RequiredFieldEmpty(name),
        ),
        parse_field(Kind::List, name, input) == Err::<FieldView, FormErrorView>(
            FormErrorView::RequiredFieldEmpty(name),
        ),
        parse_field(Kind::MultilineList, name, input) == Err::<FieldView, FormErrorView>(
            FormErrorView::RequiredFieldEmpty(name),
        ),
        parse_field(Kind::Choice, name, input) == Err::<FieldView, FormErrorView>(
            FormErrorView::RequiredFieldEmpty(name),
        ),
        parse_field(Kind::Boolean, name, input) == Err::<FieldView, FormErrorView>(
            FormErrorView::RequiredFieldEmpty(name),
        ),
        multiline_value(name, input).len() == 0 ==> parse_field(Kind::MultilineText, name, input)
            == Err::<FieldView, FormErrorView>(FormErrorView::RequiredFieldEmpty(name)),
        parse_field(Kind::OptionalMultilineText, name, input) == Ok::<FieldView, FormErrorView>(
            single(Kind::OptionalMultilineText, name, Seq::empty(), Seq::empty()),
        ),
        parse_field(Kind::OptionalChoice, name, input) == Ok::<FieldView, FormErrorView>(
            single(Kind::OptionalChoice, name, Seq::empty(), Seq::empty()),
        ),
        parse_field(Kind::OptionalText, name, input) == Ok::<FieldView, FormErrorView>(
            single(Kind::OptionalText, name, Seq::empty(), Seq::empty()),
        ),
        parse_field(Kind::OptionalList, name, input) == Ok::<FieldView, FormErrorView>(
            multi(Kind::OptionalList, name, Seq::empty(), Seq::empty()),
        ),
        parse_field(Kind::OptionalChoiceList, name, input) == Ok::<FieldView, FormErrorView>(
            multi(Kind::OptionalChoiceList, name, Seq::empty(), Seq::empty()),
        ),
        parse_field(Kind::OptionalMultilineList, name, input) == Ok::<FieldView, FormErrorView>(
            multi(Kind::OptionalMultilineList, name, Seq::empty(), Seq::empty()),
        ),
{
    assert(after_label(name, input) =~= Seq::<char>::empty());
}

/// A choice list with no value shows every offered candidate, each on a
/// line of its own below a marker line; with a value it never does.
pub proof fn choice_list_placeholder_law(
    name: Seq<char>,
    values: Seq<Seq<char>>,
    choices: Seq<Seq<char>>,
)
    ensures
        join(values, seq![';']).len() == 0 && choices.len() > 0 ==> field_text(
            multi(Kind::OptionalChoiceList, name, values, choices),
        ) == crate::text::trim(
            label(name) + seq!['\n'] + choose_or_delete_marker() + seq!['\n'] + join(
                choices,
                seq!['\n'],
            ) + seq!['\n'],
        ),
        join(values, seq![';']).len() > 0 ==> field_text(
            multi(Kind::OptionalChoiceList, name, values, choices),
        ) == crate::text::trim(label(name) + seq![' '] + join(values, seq![';'])),
        choices.len() > 0 && (forall|i: int, j: int|
            0 <= i < choices.len() && 0 <= j < choices[i].len() ==> #[trigger] choices[i][j]
                != '\n') ==> split(join(choices, seq!['\n']), seq!['\n']) == choices,
{
    if choices.len() > 0 {
        lemma_lines_join(choices);
        let m = choose_or_delete_marker();
        assert(label(name) + seq!['\n'] + m + seq!['\n'] + lines(choices) =~= label(name)
            + seq!['\n'] + m + seq!['\n'] + join(choices, seq!['\n']) + seq!['\n']);
        if forall|i: int, j: int|
            0 <= i < choices.len() && 0 <= j < choices[i].len() ==> #[trigger] choices[i][j]
                != '\n' {
            assert forall|k: int| 0 <= k < choices.len() implies clean_piece(
                #[trigger] choices[k],
                seq!['\n'],
            ) by {
                lemma_clean_single(choices[k], '\n');
            }
            lemma_split_join(choices, seq!['\n']);
        }
    }
}

/// Each candidate on a line of its own is the candidates joined by line
/// breaks, and a final line break.
pub proof fn lemma_lines_join(cs: Seq<Seq<char>>)
    requires
        cs.len() > 0,
    ensures
        lines(cs) == join(cs, seq!['\n']) + seq!['\n'],
    decreases cs.len(),
{
    if cs.len() == 1 {
        assert(cs.drop_last() =~= Seq::<Seq<char>>::empty());
        assert(lines(cs.drop_last()) == Seq::<char>::empty());
        assert(lines(cs) == lines(cs.drop_last()) + cs.last() + seq!['\n']);
        assert(lines(cs) =~= join(cs, seq!['\n']) + seq!['\n']);
    } else {
        lemma_lines_join(cs.drop_last());
        crate::text::lemma_join_push(cs, seq!['\n'], cs.len() - 1);
        assert(cs.take(cs.len() - 1) =~= cs.drop_last());
        assert(cs.take(cs.len() as int) =~= cs);
        assert(lines(cs) =~= join(cs, seq!['\n']) + seq!['\n']);
    }
}

/// A piece without the one-character separator cannot swallow it.
pub proof fn lemma_clean_single(p: Seq<char>, c: char)
    requires
        forall|j: int| 0 <= j < p.len() ==> #[trigger] p[j] != c,
    ensures
        clean_piece(p, seq![c]),
{
    assert forall|m: int| 0 <= m < p.len() implies !match_at(p + seq![c], seq![c], m) by {
        if match_at(p + seq![c], seq![c], m) {
            assert((p + seq![c]).subrange(m, m + 1)[0] == c);
            assert((p + seq![c])[m] == p[m]);
        }
    }
}

/// A broadcast belongs to exactly one of a network and an affiliate: both
/// or neither is an error; one, when found, is the one attached.
pub proof fn broadcast_exclusivity_law(
    id: i32,
    fs: Seq<FieldView>,
    networks: Seq<NewsNetworkView>,
    affiliates: Seq<NewsAffiliateView>,
    nn: Seq<char>,
    an: Seq<char>,
)
    requires
        value_of(fs, "Network"@) == Ok::<Seq<char>, FormErrorView>(nn),
        value_of(fs, "Affiliate"@) == Ok::<Seq<char>, FormErrorView>(an),
    ensures
        nn.len() > 0 && an.len() > 0 ==> broadcast_from_fields(id, fs, networks, affiliates)
            == Err::<crate::models::NewsBroadcastView, EditErrorView>(
            EditErrorView::NewsBroadcastCannotHaveNetworkAndAffiliate,
        ),
        nn.len() == 0 && an.len() == 0 ==> broadcast_from_fields(id, fs, networks, affiliates)
            == Err::<crate::models::NewsBroadcastView, EditErrorView>(
            EditErrorView::NewsBroadcastDoesNotHaveNetworkOrAffiliate,
        ),
        nn.len() > 0 && an.len() == 0 && first_index(network_names(networks), nn) >= 0
            ==> (broadcast_from_fields(id, fs, networks, affiliates) matches Ok(b) ==> b.news_network
            == Some(networks[first_index(network_names(networks), nn)]) && b.news_affiliate is None),
        an.len() > 0 && nn.len() == 0 && first_index(affiliate_names(affiliates), an) >= 0
            ==> (broadcast_from_fields(id, fs, networks, affiliates) matches Ok(b)
            ==> b.news_affiliate == Some(affiliates[first_index(affiliate_names(affiliates), an)])
            && b.news_network is None),
        (nn.len() > 0) != (an.len() > 0) && (nn.len() > 0 ==> first_index(
            network_names(networks),
            nn,
        ) >= 0) && (an.len() > 0 ==> first_index(affiliate_names(affiliates), an) >= 0) && (exists|
            dt: Seq<char>,
        |
            #![trigger date_of(dt)]
            value_of(fs, "Date"@) == Ok::<Seq<char>, FormErrorView>(dt) && date_of(dt) is Some)
            && value_of(fs, "Description"@) is Ok ==> broadcast_from_fields(
            id,
            fs,
            networks,
            affiliates,
        ) is Ok,
{
}

/// A network or affiliate name that is not among the given ones is an
/// error that names it; no record is made.
pub proof fn unknown_reference_law(
    id: i32,
    fs: Seq<FieldView>,
    networks: Seq<NewsNetworkView>,
    affiliates: Seq<NewsAffiliateView>,
    nn: Seq<char>,
)
    requires
        value_of(fs, "Network"@) == Ok::<Seq<char>, FormErrorView>(nn),
        nn.len() > 0,
        first_index(network_names(networks), nn) < 0,
    ensures
        value_of(fs, "Affiliate"@) == Ok::<Seq<char>, FormErrorView>(Seq::empty())
            ==> broadcast_from_fields(id, fs, networks, affiliates) == Err::<
            crate::models::NewsBroadcastView,
            EditErrorView,
        >(EditErrorView::NotInList(nn, "networks"@)),
        value_of(fs, "Name"@) is Ok && value_of(fs, "Description"@) is Ok && value_of(
            fs,
            "Region"@,
        ) is Ok ==> affiliate_from_fields(id, fs, networks) == Err::<
            NewsAffiliateView,
            EditErrorView,
        >(EditErrorView::NotInList(nn, "networks"@)),
{
}

/// No two people share a name.
pub open spec fn unique_names(s: Seq<PersonView>) -> bool {
    forall|i: int, j: int| 0 <= i < j < s.len() ==> #[trigger] s[i].name != #[trigger] s[j].name
}

/// No person carries a role twice.
pub open spec fn distinct_tags(s: Seq<PersonView>) -> bool {
    forall|k: int| 0 <= k < s.len() ==> (#[trigger] s[k]).types.no_duplicates()
}

/// Someone of that name carries that role.
pub open spec fn tagged(s: Seq<PersonView>, name: Seq<char>, t: PersonType) -> bool {
    exists|k: int| 0 <= k < s.len() && #[trigger] s[k].name == name && s[k].types.contains(t)
}

/// The role list of position `i` names `name`.
pub open spec fn listed_in(fs: Seq<FieldView>, i: int, name: Seq<char>) -> bool {
    values_of(fs, role_labels()[i]) matches Ok(ns) && ns.contains(name)
}

/// One of the first `n` role lists giving role `t` names `name`.
pub open spec fn listed(fs: Seq<FieldView>, n: int, name: Seq<char>, t: PersonType) -> bool {
    exists|i: int| 0 <= i < n && role_types()[i] == t && #[trigger] listed_in(fs, i, name)
}

proof fn lemma_add_person(acc: Seq<PersonView>, p: PersonView)
    requires
        unique_names(acc),
        distinct_tags(acc),
        p.types.len() == 1,
    ensures
        unique_names(add_person(acc, p)),
        distinct_tags(add_person(acc, p)),
        tagged(add_person(acc, p), p.name, p.types[0]),
        forall|n: Seq<char>, t: PersonType| #[trigger]
            tagged(acc, n, t) ==> tagged(add_person(acc, p), n, t),
        forall|n: Seq<char>, t: PersonType| #[trigger]
            tagged(add_person(acc, p), n, t) ==> tagged(acc, n, t) || (n == p.name && t
                == p.types[0]),
{
    let ns = person_names(acc);
    let k = first_index(ns, p.name);
    crate::text::lemma_first_index_range(ns, p.name);
    let r = add_person(acc, p);
    let t0 = p.types[0];
    if k < 0 {
        assert(r == acc.push(p));
        assert forall|i: int| 0 <= i < acc.len() implies #[trigger] acc[i].name != p.name by {
            assert(ns[i] == acc[i].name);
        }
        assert(r[acc.len() as int] == p);
        assert(p.types =~= seq![t0]);
        assert(p.types.contains(t0)) by {
            assert(p.types[0] == t0);
        }
        assert(tagged(r, p.name, t0));
        assert forall|n: Seq<char>, t: PersonType| #[trigger] tagged(acc, n, t) implies tagged(
            r,
            n,
            t,
        ) by {
            let w = choose|w: int| 0 <= w < acc.len() && #[trigger] acc[w].name == n && acc[w].types.contains(t);
            assert(r[w] == acc[w]);
        }
        assert forall|n: Seq<char>, t: PersonType| #[trigger] tagged(r, n, t) implies tagged(
            acc,
            n,
            t,
        ) || (n == p.name && t == t0) by {
            let w = choose|w: int| 0 <= w < r.len() && #[trigger] r[w].name == n && r[w].types.contains(t);
            if w < acc.len() {
                assert(r[w] == acc[w]);
            } else {
                let x = choose|x: int| 0 <= x < p.types.len() && p.types[x] == t;
                assert(x == 0);
            }
        }
        assert forall|k2: int| 0 <= k2 < r.len() implies (#[trigger] r[k2]).types.no_duplicates() by {
            if k2 < acc.len() {
                assert(r[k2] == acc[k2]);
            }
        }
    } else {
        assert(acc[k].name == p.name) by {
            assert(ns[k] == acc[k].name);
        }
        if acc[k].types.contains(t0) {
            assert(r == acc);
            assert(r[k].name == p.name && r[k].types.contains(t0));
            assert(tagged(r, p.name, t0));
        } else {
            let q = PersonView { types: acc[k].types.push(t0), ..acc[k] };
            assert(r == acc.update(k, q));
            assert(q.types[acc[k].types.len() as int] == t0);
            assert(r[k] == q);
            assert(r[k].name == p.name && r[k].types.contains(t0));
            assert(tagged(r, p.name, t0));
            assert forall|i: int, j: int| 0 <= i < j < r.len() implies #[trigger] r[i].name
                != #[trigger] r[j].name by {
                assert(r[i].name == acc[i].name);
                assert(r[j].name == acc[j].name);
            }
            assert forall|k2: int| 0 <= k2 < r.len() implies (#[trigger] r[k2]).types.no_duplicates() by {
                if k2 != k {
                    assert(r[k2] == acc[k2]);
                } else {
                    let ts = acc[k].types;
                    assert(ts.no_duplicates());
                    assert forall|a: int, b: int| 0 <= a < b < q.types.len() implies q.types[a] != q.types[b] by {
                        if b == ts.len() {
                            assert(q.types[a] == ts[a]);
                        } else {
                            assert(q.types[a] == ts[a]);
                            assert(q.types[b] == ts[b]);
                        }
                    }
                }
            }
            assert forall|n: Seq<char>, t: PersonType| #[trigger] tagged(acc, n, t) implies tagged(
                r,
                n,
                t,
            ) by {
                let w = choose|w: int| 0 <= w < acc.len() && #[trigger] acc[w].name == n && acc[w].types.contains(t);
                if w == k {
                    let x = choose|x: int| 0 <= x < acc[k].types.len() && acc[k].types[x] == t;
                    assert(q.types[x] == t);
                    assert(r[k].types.contains(t));
                } else {
                    assert(r[w] == acc[w]);
                }
            }
            assert forall|n: Seq<char>, t: PersonType| #[trigger] tagged(r, n, t) implies tagged(
                acc,
                n,
                t,
            ) || (n == p.name && t == t0) by {
                let w = choose|w: int| 0 <= w < r.len() && #[trigger] r[w].name == n && r[w].types.contains(t);
                if w == k {
                    let x = choose|x: int| 0 <= x < q.types.len() && q.types[x] == t;
                    if x < acc[k].types.len() {
                        assert(acc[k].types[x] == t);
                        assert(acc[k].types.contains(t));
                        assert(tagged(acc, n, t));
                    }
                } else {
                    assert(r[w] == acc[w]);
                    assert(tagged(acc, n, t));
                }
            }
        }
    }
}

proof fn lemma_add_people(acc: Seq<PersonView>, ps: Seq<PersonView>)
    requires
        unique_names(acc),
        distinct_tags(acc),
        forall|i: int| 0 <= i < ps.len() ==> (#[trigger] ps[i]).types.len() == 1,
    ensures
        unique_names(add_people(acc, ps)),
        distinct_tags(add_people(acc, ps)),
        forall|i: int| 0 <= i < ps.len() ==> tagged(add_people(acc, ps), (#[trigger] ps[i]).name, ps[i].types[0]),
        forall|n: Seq<char>, t: PersonType| #[trigger]
            tagged(acc, n, t) ==> tagged(add_people(acc, ps), n, t),
        forall|n: Seq<char>, t: PersonType| #[trigger]
            tagged(add_people(acc, ps), n, t) ==> tagged(acc, n, t) || exists|i: int|
                0 <= i < ps.len() && (#[trigger] ps[i]).name == n && ps[i].types[0] == t,
    decreases ps.len(),
{
    if ps.len() > 0 {
        let d = ps.drop_last();
        assert forall|i: int| 0 <= i < d.len() implies (#[trigger] d[i]).types.len() == 1 by {
            assert(d[i] == ps[i]);
        }
        lemma_add_people(acc, d);
        let mid = add_people(acc, d);
        lemma_add_person(mid, ps.last());
        let r = add_people(acc, ps);
        assert(r == add_person(mid, ps.last()));
        assert forall|i: int| 0 <= i < ps.len() implies tagged(r, (#[trigger] ps[i]).name, ps[i].types[0]) by {
            if i < d.len() {
                assert(d[i] == ps[i]);
                assert(tagged(mid, d[i].name, d[i].types[0]));
            }
        }
        assert forall|n: Seq<char>, t: PersonType| #[trigger] tagged(r, n, t) implies tagged(acc, n, t) || exists|i: int|
                0 <= i < ps.len() && (#[trigger] ps[i]).name == n && ps[i].types[0] == t by {
            if tagged(mid, n, t) {
                if !tagged(acc, n, t) {
                    let i = choose|i: int| 0 <= i < d.len() && (#[trigger] d[i]).name == n && d[i].types[0] == t;
                    assert(ps[i] == d[i]);
                }
            } else {
                assert(ps[ps.len() - 1] == ps.last());
            }
        }
    }
}

/// Merging the role lists of a master video's form gives one entry per
/// name, with no role twice; a person carries a role exactly when a list
/// of that role names them.
pub proof fn person_merge_law(fs: Seq<FieldView>, known: Seq<PersonView>)
    ensures
        people_from(fs, known, 8) matches Ok(r) ==> {
            &&& unique_names(r)
            &&& distinct_tags(r)
            &&& forall|n: Seq<char>, t: PersonType| #[trigger] tagged(r, n, t) <==> listed(fs, 8, n, t)
        },
{
    lemma_people_from(fs, known, 8);
}

proof fn lemma_people_from(fs: Seq<FieldView>, known: Seq<PersonView>, n: nat)
    requires
        n <= 8,
    ensures
        people_from(fs, known, n) matches Ok(r) ==> {
            &&& unique_names(r)
            &&& distinct_tags(r)
            &&& forall|m: Seq<char>, t: PersonType| #[trigger] tagged(r, m, t) <==> listed(fs, n as int, m, t)
        },
    decreases n,
{
    if n > 0 {
        lemma_people_from(fs, known, (n - 1) as nat);
        if let Ok(acc) = people_from(fs, known, (n - 1) as nat) {
            if let Ok(names) = values_of(fs, role_labels()[n - 1]) {
                let t0 = role_types()[n - 1];
                let ps = resolve_all(names, known, t0);
                assert forall|i: int| 0 <= i < ps.len() implies (#[trigger] ps[i]).types.len() == 1 by {
                    assert(ps[i] == resolve_person(names[i], known, t0));
                }
                lemma_add_people(acc, ps);
                let r = add_people(acc, ps);
                assert(people_from(fs, known, n) == Ok::<Seq<PersonView>, EditErrorView>(r));
                assert forall|m: Seq<char>, t: PersonType| #[trigger] tagged(r, m, t) implies listed(fs, n as int, m, t) by {
                    if tagged(acc, m, t) {
                        let i = choose|i: int| 0 <= i < n - 1 && role_types()[i] == t && #[trigger] listed_in(fs, i, m);
                        assert(listed_in(fs, i, m));
                    } else {
                        let i = choose|i: int| 0 <= i < ps.len() && (#[trigger] ps[i]).name == m && ps[i].types[0] == t;
                        assert(ps[i] == resolve_person(names[i], known, t0));
                        assert(names[i] == m);
                        assert(names.contains(m));
                        assert(listed_in(fs, n - 1, m));
                    }
                }
                assert forall|m: Seq<char>, t: PersonType| listed(fs, n as int, m, t) implies #[trigger] tagged(r, m, t) by {
                    let i = choose|i: int| 0 <= i < n && role_types()[i] == t && #[trigger] listed_in(fs, i, m);
                    if i < n - 1 {
                        assert(listed(fs, n - 1, m, t));
                        assert(tagged(acc, m, t));
                    } else {
                        let j = choose|j: int| 0 <= j < names.len() && names[j] == m;
                        assert(ps[j] == resolve_person(names[j], known, t0));
                        assert(tagged(r, ps[j].name, ps[j].types[0]));
                    }
                }
            }
        }
    } else {
        if let Ok(r) = people_from(fs, known, 0) {
            assert(r == Seq::<PersonView>::empty());
        }
    }
}

} // verus!
