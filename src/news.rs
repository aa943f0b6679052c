//! Forms for news networks, affiliates and broadcasts.
use crate::dates::{date_of, date_text, Date};
use crate::errors::{EditError, EditErrorView, FormError, FormErrorView};
use crate::fields::{
    ChoiceField, MultilineTextField, OptionalChoiceField, OptionalMultilineTextField, TextField,
};
use crate::forms::{parse_form, single, value_of, Field, FieldView, Form, Kind};
use crate::models::{
    NewsAffiliate, NewsAffiliateView, NewsBroadcast, NewsBroadcastView, NewsNetwork,
    NewsNetworkView,
};
use crate::text::{equal_strs, first_index, lemma_first_index};
use vstd::prelude::*;
use vstd::string::*;

verus! {

pub open spec fn network_views(v: Seq<NewsNetwork>) -> Seq<NewsNetworkView> {
    Seq::new(v.len(), |i: int| v[i]@)
}

pub open spec fn affiliate_views(v: Seq<NewsAffiliate>) -> Seq<NewsAffiliateView> {
    Seq::new(v.len(), |i: int| v[i]@)
}

pub open spec fn network_names(v: Seq<NewsNetworkView>) -> Seq<Seq<char>> {
    Seq::new(v.len(), |i: int| v[i].name)
}

pub open spec fn affiliate_names(v: Seq<NewsAffiliateView>) -> Seq<Seq<char>> {
    Seq::new(v.len(), |i: int| v[i].name)
}

/// The first network of the list with the given name.
pub fn find_network(networks: &Vec<NewsNetwork>, name: &str) -> (r: Option<usize>)
    ensures
        ({
            let k = first_index(network_names(network_views(networks@)), name@);
            &&& k < 0 ==> r is None
            &&& k >= 0 ==> (r matches Some(i) && i as int == k && k < networks@.len())
        }),
{
    let ghost ns = network_names(network_views(networks@));
    let mut i: usize = 0;
    while i < networks.len()
        invariant
            ns == network_names(network_views(networks@)),
            i <= networks@.len(),
            forall|j: int| 0 <= j < i ==> #[trigger] ns[j] != name@,
        decreases networks.len() - i,
    {
        if equal_strs(networks[i].name.as_str(), name) {
            proof {
                lemma_first_index(ns, name@, i as int);
            }
            return Some(i);
        }
        i = i + 1;
    }
    proof {
        lemma_first_index(ns, name@, i as int);
    }
    None
}

/// The first affiliate of the list with the given name.
pub fn find_affiliate(affiliates: &Vec<NewsAffiliate>, name: &str) -> (r: Option<usize>)
    ensures
        ({
            let k = first_index(affiliate_names(affiliate_views(affiliates@)), name@);
            &&& k < 0 ==> r is None
            &&& k >= 0 ==> (r matches Some(i) && i as int == k && k < affiliates@.len())
        }),
{
    let ghost ns = affiliate_names(affiliate_views(affiliates@));
    let mut i: usize = 0;
    while i < affiliates.len()
        invariant
            ns == affiliate_names(affiliate_views(affiliates@)),
            i <= affiliates@.len(),
            forall|j: int| 0 <= j < i ==> #[trigger] ns[j] != name@,
        decreases affiliates.len() - i,
    {
        if equal_strs(affiliates[i].name.as_str(), name) {
            proof {
                lemma_first_index(ns, name@, i as int);
            }
            return Some(i);
        }
        i = i + 1;
    }
    proof {
        lemma_first_index(ns, name@, i as int);
    }
    None
}

// ---------------------------------------------------------------------------
// Networks
pub open spec fn network_kinds() -> Seq<Kind> {
    seq![Kind::Text, Kind::MultilineText]
}

pub open spec fn network_labels() -> Seq<Seq<char>> {
    seq!["Name"@, "Description"@]
}

/// The fields of a network's form.
pub open spec fn network_form(n: NewsNetworkView) -> Seq<FieldView> {
    seq![
        single(Kind::Text, "Name"@, n.name, Seq::empty()),
        single(Kind::MultilineText, "Description"@, n.description, Seq::empty()),
    ]
}

/// The network a completed form describes.
pub open spec fn network_from_fields(id: i32, fs: Seq<FieldView>) -> Result<
    NewsNetworkView,
    EditErrorView,
> {
    match value_of(fs, "Name"@) {
        Err(e) => Err(EditErrorView::Form(e)),
        Ok(name) => match value_of(fs, "Description"@) {
            Err(e) => Err(EditErrorView::Form(e)),
            Ok(description) => Ok(NewsNetworkView { id, name, description }),
        },
    }
}

pub open spec fn form_result(r: Result<Form, FormError>) -> Result<Seq<FieldView>, FormErrorView> {
    match r {
        Ok(f) => Ok(f@),
        Err(e) => Err(e@),
    }
}

pub open spec fn network_result(r: Result<NewsNetwork, EditError>) -> Result<
    NewsNetworkView,
    EditErrorView,
> {
    match r {
        Ok(n) => Ok(n@),
        Err(e) => Err(e@),
    }
}

pub open spec fn affiliate_result(r: Result<NewsAffiliate, EditError>) -> Result<
    NewsAffiliateView,
    EditErrorView,
> {
    match r {
        Ok(n) => Ok(n@),
        Err(e) => Err(e@),
    }
}

pub open spec fn broadcast_result(r: Result<NewsBroadcast, EditError>) -> Result<
    NewsBroadcastView,
    EditErrorView,
> {
    match r {
        Ok(n) => Ok(n@),
        Err(e) => Err(e@),
    }
}

impl Form {
    /// The form of a network: its name, then its description.
    pub fn from_news_network(model: &NewsNetwork) -> (r: Form)
        ensures
            r@ == network_form(model@),
    {
        let mut form = Form::new();
        form.add_field(Field::Text(TextField::new("Name", model.name.as_str())));
        form.add_field(
            Field::MultilineText(MultilineTextField::new("Description", model.description.as_str())),
        );
        assert(form@ =~~= network_form(model@));
        form
    }

    /// Reads a network's completed form.
    pub fn from_news_network_str(s: &str) -> (r: Result<Form, FormError>)
        ensures
            form_result(r) == parse_form(network_kinds(), network_labels(), s@),
    {
        let kinds = vec![Kind::Text, Kind::MultilineText];
        let names = vec!["Name", "Description"];
        assert(kinds@ =~= network_kinds());
        assert(names@.map_values(|n: &str| n@) =~= network_labels());
        Form::parse_with(&kinds, &names, s)
    }
}

/// Takes the value of the named field, or the lookup's error.
fn value_or_error(form: &Form, name: &str) -> (r: Result<String, EditError>)
    ensures
        r matches Ok(v) ==> value_of(form@, name@) == Ok::<Seq<char>, FormErrorView>(v@),
        r matches Err(e) ==> value_of(form@, name@) matches Err(fe) && e@ == EditErrorView::Form(
            fe,
        ),
{
    match form.get_value(name) {
        Ok(v) => Ok(v),
        Err(e) => Err(EditError::Form(e)),
    }
}

/// The network a completed form describes, with the given identity.
pub fn news_network_from_form(id: i32, form: &Form) -> (r: Result<NewsNetwork, EditError>)
    ensures
        network_result(r) == network_from_fields(id, form@),
{
    let name = match value_or_error(form, "Name") {
        Ok(v) => v,
        Err(e) => return Err(e),
    };
    let description = match value_or_error(form, "Description") {
        Ok(v) => v,
        Err(e) => return Err(e),
    };
    Ok(NewsNetwork { id, name, description })
}

// ---------------------------------------------------------------------------
// Affiliates
pub open spec fn affiliate_kinds() -> Seq<Kind> {
    seq![Kind::Choice, Kind::Text, Kind::MultilineText, Kind::Text]
}

pub open spec fn affiliate_labels() -> Seq<Seq<char>> {
    seq!["Network"@, "Name"@, "Description"@, "Region"@]
}

/// The fields of an affiliate's form: its network, name, description and
/// region.
pub open spec fn affiliate_form(a: NewsAffiliateView) -> Seq<FieldView> {
    seq![
        single(Kind::Choice, "Network"@, a.network.name, Seq::empty()),
        single(Kind::Text, "Name"@, a.name, Seq::empty()),
        single(Kind::MultilineText, "Description"@, a.description, Seq::empty()),
        single(Kind::Text, "Region"@, a.region, Seq::empty()),
    ]
}

/// The affiliate a completed form describes; its network is the first of
/// the given networks with the name the form gives.
pub open spec fn affiliate_from_fields(
    id: i32,
    fs: Seq<FieldView>,
    networks: Seq<NewsNetworkView>,
) -> Result<NewsAffiliateView, EditErrorView> {
    match value_of(fs, "Name"@) {
        Err(e) => Err(EditErrorView::Form(e)),
        Ok(name) => match value_of(fs, "Description"@) {
            Err(e) => Err(EditErrorView::Form(e)),
            Ok(description) => match value_of(fs, "Region"@) {
                Err(e) => Err(EditErrorView::Form(e)),
                Ok(region) => match value_of(fs, "Network"@) {
                    Err(e) => Err(EditErrorView::Form(e)),
                    Ok(network_name) => {
                        let k = first_index(network_names(networks), network_name);
                        if k < 0 {
                            Err(EditErrorView::NotInList(network_name, "networks"@))
                        } else {
                            Ok(
                                NewsAffiliateView {
                                    id,
                                    name,
                                    description,
                                    region,
                                    network: networks[k],
                                },
                            )
                        }
                    },
                },
            },
        },
    }
}

impl Form {
    /// The form of an affiliate.
    pub fn from_news_affiliate(model: &NewsAffiliate) -> (r: Form)
        ensures
            r@ == affiliate_form(model@),
    {
        let mut form = Form::new();
        let network = ChoiceField::new("Network", model.network.name.as_str());
        assert(crate::text::views(network.choices@) =~= Seq::<Seq<char>>::empty());
        form.add_field(Field::Choice(network));
        form.add_field(Field::Text(TextField::new("Name", model.name.as_str())));
        form.add_field(
            Field::MultilineText(MultilineTextField::new("Description", model.description.as_str())),
        );
        form.add_field(Field::Text(TextField::new("Region", model.region.as_str())));
        assert(form@ =~~= affiliate_form(model@));
        form
    }

    /// Reads an affiliate's completed form.
    pub fn from_news_affiliate_str(s: &str) -> (r: Result<Form, FormError>)
        ensures
            form_result(r) == parse_form(affiliate_kinds(), affiliate_labels(), s@),
    {
        let kinds = vec![Kind::Choice, Kind::Text, Kind::MultilineText, Kind::Text];
        let names = vec!["Network", "Name", "Description", "Region"];
        assert(kinds@ =~= affiliate_kinds());
        assert(names@.map_values(|n: &str| n@) =~= affiliate_labels());
        Form::parse_with(&kinds, &names, s)
    }
}

/// The affiliate a completed form describes, with the given identity.
pub fn news_affiliate_from_form(id: i32, form: &Form, networks: &Vec<NewsNetwork>) -> (r: Result<
    NewsAffiliate,
    EditError,
>)
    ensures
        affiliate_result(r) == affiliate_from_fields(id, form@, network_views(networks@)),
{
    let name = match value_or_error(form, "Name") {
        Ok(v) => v,
        Err(e) => return Err(e),
    };
    let description = match value_or_error(form, "Description") {
        Ok(v) => v,
        Err(e) => return Err(e),
    };
    let region = match value_or_error(form, "Region") {
        Ok(v) => v,
        Err(e) => return Err(e),
    };
    let network_name = match value_or_error(form, "Network") {
        Ok(v) => v,
        Err(e) => return Err(e),
    };
    match find_network(networks, network_name.as_str()) {
        None => Err(EditError::NotInList(network_name, String::from_str("networks"))),
        Some(k) => {
            let network = networks[k].copied();
            assert(network_views(networks@)[k as int] == networks@[k as int]@);
            Ok(NewsAffiliate { id, name, description, region, network })
        },
    }
}

// ---------------------------------------------------------------------------
// Broadcasts
/// What a broadcast is called: its network's name, or else its
/// affiliate's, then its date in brackets.
pub open spec fn broadcast_title(b: NewsBroadcastView) -> Seq<char> {
    let who = match b.news_network {
        Some(n) => n.name,
        None => match b.news_affiliate {
            Some(a) => a.name,
            None => Seq::empty(),
        },
    };
    match b.date {
        Some(d) => who + seq![' ', '('] + date_text(d) + seq![')'],
        None => who,
    }
}

impl NewsBroadcast {
    /// What the broadcast is called, as choice lists offer it.
    pub fn to_string(&self) -> (r: String)
        ensures
            r@ == broadcast_title(self@),
    {
        let who = match &self.news_network {
            Some(n) => n.name.clone(),
            None => match &self.news_affiliate {
                Some(a) => a.name.clone(),
                None => String::new(),
            },
        };
        match self.date {
            Some(d) => {
                proof {
                    reveal_strlit(" (");
                    reveal_strlit(")");
                    assert(" ("@ =~= seq![' ', '(']);
                    assert(")"@ =~= seq![')']);
                }
                who.concat(" (").concat(d.to_string().as_str()).concat(")")
            },
            None => who,
        }
    }
}

pub open spec fn broadcast_kinds() -> Seq<Kind> {
    seq![Kind::OptionalChoice, Kind::OptionalChoice, Kind::Text, Kind::OptionalMultilineText]
}

pub open spec fn broadcast_labels() -> Seq<Seq<char>> {
    seq!["Network"@, "Affiliate"@, "Date"@, "Description"@]
}

pub open spec fn text_or_empty(o: Option<Seq<char>>) -> Seq<char> {
    match o {
        Some(s) => s,
        None => Seq::empty(),
    }
}

/// The fields of a broadcast's form: its network or affiliate, its date
/// and its description; what it lacks is left empty.
pub open spec fn broadcast_form(b: NewsBroadcastView) -> Seq<FieldView> {
    seq![
        single(
            Kind::OptionalChoice,
            "Network"@,
            match b.news_network {
                Some(n) => n.name,
                None => Seq::empty(),
            },
            Seq::empty(),
        ),
        single(
            Kind::OptionalChoice,
            "Affiliate"@,
            match b.news_affiliate {
                Some(a) => a.name,
                None => Seq::empty(),
            },
            Seq::empty(),
        ),
        single(
            Kind::Text,
            "Date"@,
            match b.date {
                Some(d) => date_text(d),
                None => Seq::empty(),
            },
            Seq::empty(),
        ),
        single(
            Kind::OptionalMultilineText,
            "Description"@,
            text_or_empty(b.description),
            Seq::empty(),
        ),
    ]
}

/// The broadcast a completed form describes. It belongs to exactly one of a
/// network and an affiliate, looked up by name in the given lists.
pub open spec fn broadcast_from_fields(
    id: i32,
    fs: Seq<FieldView>,
    networks: Seq<NewsNetworkView>,
    affiliates: Seq<NewsAffiliateView>,
) -> Result<NewsBroadcastView, EditErrorView> {
    match value_of(fs, "Network"@) {
        Err(e) => Err(EditErrorView::Form(e)),
        Ok(nn) => match value_of(fs, "Affiliate"@) {
            Err(e) => Err(EditErrorView::Form(e)),
            Ok(an) => {
                let nk = first_index(network_names(networks), nn);
                let ak = first_index(affiliate_names(affiliates), an);
                if nn.len() > 0 && an.len() > 0 {
                    Err(EditErrorView::NewsBroadcastCannotHaveNetworkAndAffiliate)
                } else if nn.len() == 0 && an.len() == 0 {
                    Err(EditErrorView::NewsBroadcastDoesNotHaveNetworkOrAffiliate)
                } else if nn.len() > 0 && nk < 0 {
                    Err(EditErrorView::NotInList(nn, "networks"@))
                } else if an.len() > 0 && ak < 0 {
                    Err(EditErrorView::NotInList(an, "affiliates"@))
                } else {
                    match value_of(fs, "Date"@) {
                        Err(e) => Err(EditErrorView::Form(e)),
                        Ok(dt) => match value_of(fs, "Description"@) {
                            Err(e) => Err(EditErrorView::Form(e)),
                            Ok(desc) => match date_of(dt) {
                                None => Err(EditErrorView::InvalidDate(dt)),
                                Some(d) => Ok(
                                    NewsBroadcastView {
                                        id,
                                        date: Some(d),
                                        description: if desc.len() == 0 {
                                            None
                                        } else {
                                            Some(desc)
                                        },
                                        news_network: if nn.len() > 0 {
                                            Some(networks[nk])
                                        } else {
                                            None
                                        },
                                        news_affiliate: if an.len() > 0 {
                                            Some(affiliates[ak])
                                        } else {
                                            None
                                        },
                                    },
                                ),
                            },
                        },
                    }
                }
            },
        },
    }
}

impl Form {
    /// The form of a broadcast.
    pub fn from_news_broadcast(model: &NewsBroadcast) -> (r: Form)
        ensures
            r@ == broadcast_form(model@),
    {
        let network = match &model.news_network {
            Some(n) => n.name.clone(),
            None => String::new(),
        };
        let affiliate = match &model.news_affiliate {
            Some(a) => a.name.clone(),
            None => String::new(),
        };
        let date = match model.date {
            Some(d) => d.to_string(),
            None => String::new(),
        };
        let description = match &model.description {
            Some(d) => d.clone(),
            None => String::new(),
        };
        let mut form = Form::new();
        let network = OptionalChoiceField::new("Network", network.as_str());
        let affiliate = OptionalChoiceField::new("Affiliate", affiliate.as_str());
        assert(crate::text::views(network.choices@) =~= Seq::<Seq<char>>::empty());
        assert(crate::text::views(affiliate.choices@) =~= Seq::<Seq<char>>::empty());
        form.add_field(Field::OptionalChoice(network));
        form.add_field(Field::OptionalChoice(affiliate));
        form.add_field(Field::Text(TextField::new("Date", date.as_str())));
        form.add_field(
            Field::OptionalMultilineText(
                OptionalMultilineTextField::new("Description", description.as_str()),
            ),
        );
        assert(form@ =~~= broadcast_form(model@));
        form
    }

    /// Reads a broadcast's completed form.
    pub fn from_news_broadcast_str(s: &str) -> (r: Result<Form, FormError>)
        ensures
            form_result(r) == parse_form(broadcast_kinds(), broadcast_labels(), s@),
    {
        let kinds = vec![
            Kind::OptionalChoice,
            Kind::OptionalChoice,
            Kind::Text,
            Kind::OptionalMultilineText,
        ];
        let names = vec!["Network", "Affiliate", "Date", "Description"];
        assert(kinds@ =~= broadcast_kinds());
        assert(names@.map_values(|n: &str| n@) =~= broadcast_labels());
        Form::parse_with(&kinds, &names, s)
    }
}

/// The broadcast a completed form describes, with the given identity.
pub fn news_broadcast_from_form(
    id: i32,
    form: &Form,
    networks: &Vec<NewsNetwork>,
    affiliates: &Vec<NewsAffiliate>,
) -> (r: Result<NewsBroadcast, EditError>)
    ensures
        broadcast_result(r) == broadcast_from_fields(
            id,
            form@,
            network_views(networks@),
            affiliate_views(affiliates@),
        ),
{
    let network_name = match value_or_error(form, "Network") {
        Ok(v) => v,
        Err(e) => return Err(e),
    };
    let affiliate_name = match value_or_error(form, "Affiliate") {
        Ok(v) => v,
        Err(e) => return Err(e),
    };
    let has_network = !network_name.as_str().is_empty();
    let has_affiliate = !affiliate_name.as_str().is_empty();
    if has_network && has_affiliate {
        return Err(EditError::NewsBroadcastCannotHaveNetworkAndAffiliate);
    }
    if !has_network && !has_affiliate {
        return Err(EditError::NewsBroadcastDoesNotHaveNetworkOrAffiliate);
    }
    let news_network = if has_network {
        match find_network(networks, network_name.as_str()) {
            None => return Err(EditError::NotInList(network_name, String::from_str("networks"))),
            Some(k) => {
                assert(network_views(networks@)[k as int] == networks@[k as int]@);
                Some(networks[k].copied())
            },
        }
    } else {
        None
    };
    let news_affiliate = if has_affiliate {
        match find_affiliate(affiliates, affiliate_name.as_str()) {
            None => return Err(
                EditError::NotInList(affiliate_name, String::from_str("affiliates")),
            ),
            Some(k) => {
                assert(affiliate_views(affiliates@)[k as int] == affiliates@[k as int]@);
                Some(affiliates[k].copied())
            },
        }
    } else {
        None
    };
    let date_input = match value_or_error(form, "Date") {
        Ok(v) => v,
        Err(e) => return Err(e),
    };
    let description = match value_or_error(form, "Description") {
        Ok(v) => v,
        Err(e) => return Err(e),
    };
    let date = match Date::parse(date_input.as_str()) {
        Some(d) => d,
        None => return Err(EditError::InvalidDate(date_input)),
    };
    let description = if description.as_str().is_empty() {
        None
    } else {
        Some(description)
    };
    Ok(NewsBroadcast { id, date: Some(date), description, news_network, news_affiliate })
}

} // verus!
