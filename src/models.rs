//! The records of the archive that forms edit, each with a mathematical
//! view and a copy that keeps it.
use crate::dates::Date;
use crate::timestamps::{copy_events, event_views, EventTimestamp, EventTimestampView};
use crate::text::{copy_strs, equal_strs};
use vstd::prelude::*;
use vstd::string::*;

verus! {

pub open spec fn opt_view(o: Option<String>) -> Option<Seq<char>> {
    match o {
        Some(s) => Some(s@),
        None => None,
    }
}

pub fn copy_opt(o: &Option<String>) -> (r: Option<String>)
    ensures
        opt_view(r) == opt_view(*o),
{
    match o {
        Some(s) => Some(s.clone()),
        None => None,
    }
}

/// What a file of a release holds.
#[derive(Clone, Copy, PartialEq, Eq, Structural, Debug)]
pub enum ContentType {
    Image,
    Video,
}

impl ContentType {
    pub fn as_str(&self) -> (r: &'static str)
        ensures
            r@ == (match self {
                ContentType::Image => "image"@,
                ContentType::Video => "video"@,
            }),
    {
        match self {
            ContentType::Image => "image",
            ContentType::Video => "video",
        }
    }
}

/// The kind of footage a master video is.
#[derive(Clone, Copy, PartialEq, Eq, Structural, Debug)]
pub enum Category {
    AmateurFootage,
    Compilation,
    Documentary,
    News,
    ProfessionalFootage,
    SurvivorAccount,
}

/// How a category is written.
pub open spec fn category_text(c: Category) -> Seq<char> {
    match c {
        Category::AmateurFootage => "amateur-footage"@,
        Category::Compilation => "compilation"@,
        Category::Documentary => "documentary"@,
        Category::News => "news"@,
        Category::ProfessionalFootage => "professional-footage"@,
        Category::SurvivorAccount => "survivor-account"@,
    }
}

/// The category written as `s`, if any.
pub open spec fn category_of(s: Seq<char>) -> Option<Category> {
    if s == category_text(Category::AmateurFootage) {
        Some(Category::AmateurFootage)
    } else if s == category_text(Category::Compilation) {
        Some(Category::Compilation)
    } else if s == category_text(Category::Documentary) {
        Some(Category::Documentary)
    } else if s == category_text(Category::News) {
        Some(Category::News)
    } else if s == category_text(Category::ProfessionalFootage) {
        Some(Category::ProfessionalFootage)
    } else if s == category_text(Category::SurvivorAccount) {
        Some(Category::SurvivorAccount)
    } else {
        None
    }
}

impl Category {
    pub fn as_str(&self) -> (r: &'static str)
        ensures
            r@ == category_text(*self),
    {
        match self {
            Category::AmateurFootage => "amateur-footage",
            Category::Compilation => "compilation",
            Category::Documentary => "documentary",
            Category::News => "news",
            Category::ProfessionalFootage => "professional-footage",
            Category::SurvivorAccount => "survivor-account",
        }
    }

    pub fn to_string(&self) -> (r: String)
        ensures
            r@ == category_text(*self),
    {
        String::from_str(self.as_str())
    }

    /// The category written as `s`.
    pub fn from_text(s: &str) -> (r: Option<Category>)
        ensures
            r == category_of(s@),
    {
        if equal_strs(s, "amateur-footage") {
            Some(Category::AmateurFootage)
        } else if equal_strs(s, "compilation") {
            Some(Category::Compilation)
        } else if equal_strs(s, "documentary") {
            Some(Category::Documentary)
        } else if equal_strs(s, "news") {
            Some(Category::News)
        } else if equal_strs(s, "professional-footage") {
            Some(Category::ProfessionalFootage)
        } else if equal_strs(s, "survivor-account") {
            Some(Category::SurvivorAccount)
        } else {
            None
        }
    }
}

/// The role in which a person appears in footage.
#[derive(Clone, Copy, PartialEq, Eq, Structural, Debug)]
pub enum PersonType {
    Eyewitness,
    Fire,
    Police,
    PortAuthority,
    Reporter,
    Survivor,
    Victim,
    Videographer,
}

/// How a role is written.
pub open spec fn person_type_text(t: PersonType) -> Seq<char> {
    match t {
        PersonType::Eyewitness => "Eyewitness"@,
        PersonType::Fire => "Fire"@,
        PersonType::Police => "Police"@,
        PersonType::PortAuthority => "Port Authority"@,
        PersonType::Reporter => "Reporter"@,
        PersonType::Survivor => "Survivor"@,
        PersonType::Victim => "Victim"@,
        PersonType::Videographer => "Videographer"@,
    }
}

impl PersonType {
    pub fn to_string(&self) -> (r: String)
        ensures
            r@ == person_type_text(*self),
    {
        String::from_str(
            match self {
                PersonType::Eyewitness => "Eyewitness",
                PersonType::Fire => "Fire",
                PersonType::Police => "Police",
                PersonType::PortAuthority => "Port Authority",
                PersonType::Reporter => "Reporter",
                PersonType::Survivor => "Survivor",
                PersonType::Victim => "Victim",
                PersonType::Videographer => "Videographer",
            },
        )
    }
}

/// A person seen or heard in footage, known by name, with the roles in
/// which they appear.
#[derive(Debug)]
pub struct Person {
    pub id: i32,
    pub name: String,
    pub historical_title: Option<String>,
    pub description: Option<String>,
    pub types: Vec<PersonType>,
}

pub struct PersonView {
    pub id: i32,
    pub name: Seq<char>,
    pub historical_title: Option<Seq<char>>,
    pub description: Option<Seq<char>>,
    pub types: Seq<PersonType>,
}

impl View for Person {
    type V = PersonView;

    open spec fn view(&self) -> PersonView {
        PersonView {
            id: self.id,
            name: self.name@,
            historical_title: opt_view(self.historical_title),
            description: opt_view(self.description),
            types: self.types@,
        }
    }
}

impl Person {
    pub fn copied(&self) -> (r: Person)
        ensures
            r@ == self@,
    {
        Person {
            id: self.id,
            name: self.name.clone(),
            historical_title: copy_opt(&self.historical_title),
            description: copy_opt(&self.description),
            types: self.types.clone(),
        }
    }
}

/// A national news network.
#[derive(Debug)]
pub struct NewsNetwork {
    pub id: i32,
    pub name: String,
    pub description: String,
}

pub struct NewsNetworkView {
    pub id: i32,
    pub name: Seq<char>,
    pub description: Seq<char>,
}

impl View for NewsNetwork {
    type V = NewsNetworkView;

    open spec fn view(&self) -> NewsNetworkView {
        NewsNetworkView { id: self.id, name: self.name@, description: self.description@ }
    }
}

impl NewsNetwork {
    pub fn copied(&self) -> (r: NewsNetwork)
        ensures
            r@ == self@,
    {
        NewsNetwork { id: self.id, name: self.name.clone(), description: self.description.clone() }
    }
}

/// A regional station of a network.
#[derive(Debug)]
pub struct NewsAffiliate {
    pub id: i32,
    pub name: String,
    pub description: String,
    pub region: String,
    pub network: NewsNetwork,
}

pub struct NewsAffiliateView {
    pub id: i32,
    pub name: Seq<char>,
    pub description: Seq<char>,
    pub region: Seq<char>,
    pub network: NewsNetworkView,
}

impl View for NewsAffiliate {
    type V = NewsAffiliateView;

    open spec fn view(&self) -> NewsAffiliateView {
        NewsAffiliateView {
            id: self.id,
            name: self.name@,
            description: self.description@,
            region: self.region@,
            network: self.network@,
        }
    }
}

impl NewsAffiliate {
    pub fn copied(&self) -> (r: NewsAffiliate)
        ensures
            r@ == self@,
    {
        NewsAffiliate {
            id: self.id,
            name: self.name.clone(),
            description: self.description.clone(),
            region: self.region.clone(),
            network: self.network.copied(),
        }
    }
}

/// A broadcast of a network or of an affiliate.
#[derive(Debug)]
pub struct NewsBroadcast {
    pub id: i32,
    pub date: Option<Date>,
    pub description: Option<String>,
    pub news_network: Option<NewsNetwork>,
    pub news_affiliate: Option<NewsAffiliate>,
}

pub struct NewsBroadcastView {
    pub id: i32,
    pub date: Option<Date>,
    pub description: Option<Seq<char>>,
    pub news_network: Option<NewsNetworkView>,
    pub news_affiliate: Option<NewsAffiliateView>,
}

impl View for NewsBroadcast {
    type V = NewsBroadcastView;

    open spec fn view(&self) -> NewsBroadcastView {
        NewsBroadcastView {
            id: self.id,
            date: self.date,
            description: opt_view(self.description),
            news_network: match self.news_network {
                Some(n) => Some(n@),
                None => None,
            },
            news_affiliate: match self.news_affiliate {
                Some(a) => Some(a@),
                None => None,
            },
        }
    }
}

impl NewsBroadcast {
    pub fn copied(&self) -> (r: NewsBroadcast)
        ensures
            r@ == self@,
    {
        NewsBroadcast {
            id: self.id,
            date: self.date,
            description: copy_opt(&self.description),
            news_network: match &self.news_network {
                Some(n) => Some(n.copied()),
                None => None,
            },
            news_affiliate: match &self.news_affiliate {
                Some(a) => Some(a.copied()),
                None => None,
            },
        }
    }
}

/// The master record of a piece of footage, of which videos are copies.
#[derive(Debug)]
pub struct MasterVideo {
    pub categories: Vec<Category>,
    pub date: Option<Date>,
    pub description: String,
    pub id: i32,
    pub links: Vec<String>,
    pub news_broadcasts: Vec<NewsBroadcast>,
    pub nist_files: Vec<(String, u64)>,
    pub nist_notes: Option<String>,
    pub people: Vec<Person>,
    pub timestamps: Vec<EventTimestamp>,
    pub title: String,
}

pub struct MasterVideoView {
    pub categories: Seq<Category>,
    pub date: Option<Date>,
    pub description: Seq<char>,
    pub id: i32,
    pub links: Seq<Seq<char>>,
    pub news_broadcasts: Seq<NewsBroadcastView>,
    pub nist_files: Seq<(Seq<char>, u64)>,
    pub nist_notes: Option<Seq<char>>,
    pub people: Seq<PersonView>,
    pub timestamps: Seq<EventTimestampView>,
    pub title: Seq<char>,
}

pub open spec fn file_views(v: Seq<(String, u64)>) -> Seq<(Seq<char>, u64)> {
    Seq::new(v.len(), |i: int| (v[i].0@, v[i].1))
}

pub open spec fn broadcast_views(v: Seq<NewsBroadcast>) -> Seq<NewsBroadcastView> {
    Seq::new(v.len(), |i: int| v[i]@)
}

pub open spec fn person_views(v: Seq<Person>) -> Seq<PersonView> {
    Seq::new(v.len(), |i: int| v[i]@)
}

impl View for MasterVideo {
    type V = MasterVideoView;

    open spec fn view(&self) -> MasterVideoView {
        MasterVideoView {
            categories: self.categories@,
            date: self.date,
            description: self.description@,
            id: self.id,
            links: crate::text::views(self.links@),
            news_broadcasts: broadcast_views(self.news_broadcasts@),
            nist_files: file_views(self.nist_files@),
            nist_notes: opt_view(self.nist_notes),
            people: person_views(self.people@),
            timestamps: event_views(self.timestamps@),
            title: self.title@,
        }
    }
}

pub fn copy_broadcasts(v: &Vec<NewsBroadcast>) -> (r: Vec<NewsBroadcast>)
    ensures
        broadcast_views(r@) == broadcast_views(v@),
{
    let mut out: Vec<NewsBroadcast> = Vec::new();
    let mut i: usize = 0;
    while i < v.len()
        invariant
            i <= v.len(),
            out@.len() == i,
            forall|k: int| 0 <= k < i ==> (#[trigger] out@[k])@ == v@[k]@,
        decreases v.len() - i,
    {
        out.push(v[i].copied());
        i = i + 1;
    }
    assert(broadcast_views(out@) =~= broadcast_views(v@));
    out
}

pub fn copy_people(v: &Vec<Person>) -> (r: Vec<Person>)
    ensures
        person_views(r@) == person_views(v@),
{
    let mut out: Vec<Person> = Vec::new();
    let mut i: usize = 0;
    while i < v.len()
        invariant
            i <= v.len(),
            out@.len() == i,
            forall|k: int| 0 <= k < i ==> (#[trigger] out@[k])@ == v@[k]@,
        decreases v.len() - i,
    {
        out.push(v[i].copied());
        i = i + 1;
    }
    assert(person_views(out@) =~= person_views(v@));
    out
}

pub fn copy_files(v: &Vec<(String, u64)>) -> (r: Vec<(String, u64)>)
    ensures
        file_views(r@) == file_views(v@),
{
    let mut out: Vec<(String, u64)> = Vec::new();
    let mut i: usize = 0;
    while i < v.len()
        invariant
            i <= v.len(),
            out@.len() == i,
            forall|k: int| 0 <= k < i ==> (#[trigger] out@[k]).0@ == v@[k].0@ && out@[k].1
                == v@[k].1,
        decreases v.len() - i,
    {
        out.push((v[i].0.clone(), v[i].1));
        i = i + 1;
    }
    assert(file_views(out@) =~= file_views(v@));
    out
}

impl MasterVideo {
    pub fn copied(&self) -> (r: MasterVideo)
        ensures
            r@ == self@,
    {
        MasterVideo {
            categories: self.categories.clone(),
            date: self.date,
            description: self.description.clone(),
            id: self.id,
            links: copy_strs(&self.links),
            news_broadcasts: copy_broadcasts(&self.news_broadcasts),
            nist_files: copy_files(&self.nist_files),
            nist_notes: copy_opt(&self.nist_notes),
            people: copy_people(&self.people),
            timestamps: copy_events(&self.timestamps),
            title: self.title.clone(),
        }
    }
}

/// A copy of a master video, as published somewhere.
#[derive(Debug)]
pub struct Video {
    pub description: Option<String>,
    pub duration_ms: u64,
    pub id: i32,
    pub is_primary: bool,
    pub link: String,
    pub master: MasterVideo,
    pub title: String,
}

pub struct VideoView {
    pub description: Option<Seq<char>>,
    pub duration_ms: u64,
    pub id: i32,
    pub is_primary: bool,
    pub link: Seq<char>,
    pub master: MasterVideoView,
    pub title: Seq<char>,
}

impl View for Video {
    type V = VideoView;

    open spec fn view(&self) -> VideoView {
        VideoView {
            description: opt_view(self.description),
            duration_ms: self.duration_ms,
            id: self.id,
            is_primary: self.is_primary,
            link: self.link@,
            master: self.master@,
            title: self.title@,
        }
    }
}

/// A tape catalogued by NIST, with the release files it was found in.
#[derive(Debug)]
pub struct NistTape {
    pub tape_id: i32,
    pub video_id: i32,
    pub tape_name: String,
    pub release_files: Vec<(String, u64)>,
}

/// A video catalogued by NIST, with what the archive notes of it.
#[derive(Debug)]
pub struct NistVideo {
    pub video_id: i32,
    pub video_title: String,
    pub is_missing: bool,
    pub additional_notes: Option<String>,
}

} // verus!
