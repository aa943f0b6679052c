use archive_forms::dates::Date;
use archive_forms::errors::{EditError, FormError};
use archive_forms::fields::FormField;
use archive_forms::forms::{Field, Form, Kind};
use archive_forms::helpers::{is_video_file, strip_first_two_directories};
use archive_forms::masters::master_video_from_form;
use archive_forms::models::{
    Category, ContentType, MasterVideo, NewsAffiliate, NewsBroadcast, NewsNetwork, NistTape,
    NistVideo, Person, PersonType, Video,
};
use archive_forms::news::{news_affiliate_from_form, news_broadcast_from_form, news_network_from_form};
use archive_forms::nist::{get_missing_and_additional_notes_field, get_release_files_from_form};
use archive_forms::people::get_people_from_input;
use archive_forms::videos::{duration_to_string, parse_duration, video_from_form};

fn abc() -> NewsNetwork {
    NewsNetwork {
        id: 1,
        name: "ABC News".to_string(),
        description: "National ABC News coverage".to_string(),
    }
}

fn wabc() -> NewsAffiliate {
    NewsAffiliate {
        id: 1,
        name: "WABC-TV".to_string(),
        description: String::new(),
        region: "NYC".to_string(),
        network: abc(),
    }
}

fn sept_11() -> Date {
    Date { year: 2001, month: 9, day: 11 }
}

fn broadcasts() -> Vec<NewsBroadcast> {
    vec![
        NewsBroadcast {
            id: 1,
            date: Some(sept_11()),
            description: None,
            news_network: None,
            news_affiliate: Some(wabc()),
        },
        NewsBroadcast {
            id: 2,
            date: Some(sept_11()),
            description: None,
            news_network: Some(abc()),
            news_affiliate: None,
        },
    ]
}

fn person(id: i32, name: &str, t: PersonType) -> Person {
    Person {
        id,
        name: name.to_string(),
        historical_title: None,
        description: None,
        types: vec![t],
    }
}

fn master_text(broadcasts: &str, roles: &[(&str, &str)]) -> String {
    let mut s = format!(
        "News Broadcasts: {broadcasts}\n---\nTitle: Sample\n---\nCategories: news\n---\nDate: 2001-09-11\n---\nDescription:\nSome text\n---\nLinks:\n---\nTimestamps:\n---\nNIST Notes:\n---\n"
    );
    for label in [
        "Eyewitnesses",
        "Fire",
        "Police",
        "Port Authority",
        "Reporters",
        "Survivors",
        "Victims",
        "Videographers",
    ] {
        let names = roles.iter().find(|(l, _)| *l == label).map(|(_, n)| *n).unwrap_or("");
        if names.is_empty() {
            s.push_str(&format!("{label}:\n---\n"));
        } else {
            s.push_str(&format!("{label}: {names}\n---\n"));
        }
    }
    s.push_str("NIST Files:\n");
    s
}

#[test]
fn broadcast_title_names_station_and_date() {
    let bs = broadcasts();
    assert_eq!(bs[0].to_string(), "WABC-TV (2001-09-11)");
    assert_eq!(bs[1].to_string(), "ABC News (2001-09-11)");
}

#[test]
fn master_form_scenario_parses_into_record() {
    let text = master_text("WABC-TV (2001-09-11)", &[("Reporters", "Jane Doe")]);
    let form = Form::from_master_video_str(&text).unwrap();
    let m = master_video_from_form(0, &form, &broadcasts(), &vec![]).unwrap();
    assert_eq!(m.news_broadcasts.len(), 1);
    assert_eq!(m.news_broadcasts[0].id, 1);
    assert_eq!(m.title, "Sample");
    assert_eq!(m.categories, vec![Category::News]);
    assert_eq!(m.date, Some(sept_11()));
    assert_eq!(m.description, "Some text");
    assert!(m.links.is_empty());
    assert!(m.timestamps.is_empty());
    assert!(m.nist_notes.is_none());
    assert!(m.nist_files.is_empty());
    assert_eq!(m.people.len(), 1);
    assert_eq!(m.people[0].name, "Jane Doe");
    assert_eq!(m.people[0].id, 0);
    assert_eq!(m.people[0].types, vec![PersonType::Reporter]);
}

#[test]
fn person_listed_in_two_roles_is_one_person_with_both() {
    let text = master_text("", &[("Fire", "Alice"), ("Reporters", "Alice; Bob")]);
    let form = Form::from_master_video_str(&text).unwrap();
    let known = vec![person(7, "Alice", PersonType::Survivor)];
    let m = master_video_from_form(3, &form, &broadcasts(), &known).unwrap();
    assert_eq!(m.id, 3);
    assert_eq!(m.people.len(), 2);
    assert_eq!(m.people[0].name, "Alice");
    assert_eq!(m.people[0].id, 7);
    assert_eq!(m.people[0].types, vec![PersonType::Fire, PersonType::Reporter]);
    assert_eq!(m.people[1].name, "Bob");
    assert_eq!(m.people[1].types, vec![PersonType::Reporter]);
}

#[test]
fn unknown_broadcast_is_an_error() {
    let text = master_text("CBS (2001-09-11)", &[]);
    let form = Form::from_master_video_str(&text).unwrap();
    let r = master_video_from_form(0, &form, &broadcasts(), &vec![]);
    assert!(matches!(&r, Err(EditError::NotInList(v, l)) if v == "CBS (2001-09-11)" && l == "broadcasts"));
    assert_eq!(r.err().unwrap().message(), "CBS (2001-09-11) is not in the broadcasts list");
}

#[test]
fn unknown_category_is_an_error() {
    let text = master_text("", &[]).replace("Categories: news", "Categories: news; cartoons");
    let form = Form::from_master_video_str(&text).unwrap();
    let r = master_video_from_form(0, &form, &broadcasts(), &vec![]);
    assert!(matches!(r, Err(EditError::InvalidCategory(c)) if c == "cartoons"));
}

#[test]
fn bad_date_is_an_error() {
    let text = master_text("", &[]).replace("Date: 2001-09-11", "Date: 2001-02-30");
    let form = Form::from_master_video_str(&text).unwrap();
    let r = master_video_from_form(0, &form, &broadcasts(), &vec![]);
    assert!(matches!(r, Err(EditError::InvalidDate(d)) if d == "2001-02-30"));
}

#[test]
fn wrong_section_count_is_malformed_for_every_record() {
    let text = master_text("", &[]);
    let short = text.replacen("---\n", "", 1);
    assert!(matches!(Form::from_master_video_str(&short), Err(FormError::MalformedForm)));
    assert!(matches!(Form::from_news_network_str("Name: x"), Err(FormError::MalformedForm)));
    assert!(matches!(
        Form::from_news_affiliate_str("Network: a\n---\nName: b"),
        Err(FormError::MalformedForm)
    ));
    assert!(matches!(Form::from_news_broadcast_str(""), Err(FormError::MalformedForm)));
    assert!(matches!(Form::from_video_str("Master: x\n---\n"), Err(FormError::MalformedForm)));
    assert!(matches!(
        Form::from_nist_video_str("Missing?: No\n---\nAdditional Notes:\n---\nx"),
        Err(FormError::MalformedForm)
    ));
}

#[test]
fn master_form_renders_in_fixed_order() {
    let m = MasterVideo {
        categories: vec![Category::News, Category::Documentary],
        date: Some(sept_11()),
        description: "Some text".to_string(),
        id: 4,
        links: vec!["https://example.com".to_string()],
        news_broadcasts: vec![broadcasts().remove(0)],
        nist_files: vec![("a/b.avi".to_string(), 10)],
        nist_notes: None,
        people: vec![person(1, "Jane Doe", PersonType::Reporter)],
        timestamps: vec![],
        title: "Sample".to_string(),
    };
    let form = Form::from_master_video(&m);
    let expected = "News Broadcasts: WABC-TV (2001-09-11)\n---\nTitle: Sample\n---\nCategories: news; documentary\n---\nDate: 2001-09-11\n---\nDescription:\nSome text\n---\nLinks: https://example.com\n---\nTimestamps:\n\n---\nNIST Notes:\n\n---\nEyewitnesses:\n---\nFire:\n---\nPolice:\n---\nPort Authority:\n---\nReporters: Jane Doe\n---\nSurvivors:\n---\nVictims:\n---\nVideographers:\n---\nNIST Files:\na/b.avi";
    assert_eq!(form.as_string(), expected);
    let back = Form::from_master_video_str(&form.as_string()).unwrap();
    let m2 = master_video_from_form(4, &back, &broadcasts(), &vec![]).unwrap();
    assert_eq!(m2.title, "Sample");
    assert_eq!(m2.categories, vec![Category::News, Category::Documentary]);
    assert_eq!(m2.links, vec!["https://example.com".to_string()]);
    assert_eq!(m2.nist_files, vec![("a/b.avi".to_string(), 0)]);
    assert_eq!(m2.people[0].name, "Jane Doe");
}

#[test]
fn new_master_form_offers_broadcasts() {
    let m = MasterVideo {
        categories: vec![],
        date: None,
        description: String::new(),
        id: 0,
        links: vec![],
        news_broadcasts: vec![],
        nist_files: vec![],
        nist_notes: None,
        people: vec![],
        timestamps: vec![],
        title: String::new(),
    };
    let mut form = Form::from_master_video(&m);
    let titles: Vec<String> = broadcasts().iter().map(|b| b.to_string()).collect();
    form.add_choices("News Broadcasts", titles).unwrap();
    assert!(form.as_string().starts_with(
        "News Broadcasts:\n## CHOOSE ONE OR DELETE ALL ##\nWABC-TV (2001-09-11)\nABC News (2001-09-11)\n---\nTitle:\n---\n"
    ));
    let r = form.add_choices("Title", vec![]);
    assert!(matches!(r, Err(FormError::ChoiceFieldNotFound(n)) if n == "Title"));
}

#[test]
fn network_round_trip() {
    let n = abc();
    let form = Form::from_news_network(&n);
    assert_eq!(form.as_string(), "Name: ABC News\n---\nDescription:\nNational ABC News coverage");
    let back = Form::from_news_network_str(&form.as_string()).unwrap();
    let n2 = news_network_from_form(1, &back).unwrap();
    assert_eq!(n2.name, n.name);
    assert_eq!(n2.description, n.description);
}

#[test]
fn affiliate_resolves_its_network() {
    let text = "Network: ABC News\n---\nName: WABC-TV\n---\nDescription:\nLocal\n---\nRegion: NYC";
    let form = Form::from_news_affiliate_str(text).unwrap();
    let a = news_affiliate_from_form(5, &form, &vec![abc()]).unwrap();
    assert_eq!(a.id, 5);
    assert_eq!(a.network.id, 1);
    assert_eq!(a.region, "NYC");
    let r = news_affiliate_from_form(5, &form, &vec![]);
    assert!(matches!(r, Err(EditError::NotInList(v, l)) if v == "ABC News" && l == "networks"));
    let f = Form::from_news_affiliate(&wabc());
    assert_eq!(f.as_string(), "Network: ABC News\n---\nName: WABC-TV\n---\nDescription:\n\n---\nRegion: NYC");
}

fn broadcast_text(network: &str, affiliate: &str) -> String {
    let n = if network.is_empty() { "Network:".to_string() } else { format!("Network: {network}") };
    let a = if affiliate.is_empty() { "Affiliate:".to_string() } else { format!("Affiliate: {affiliate}") };
    format!("{n}\n---\n{a}\n---\nDate: 2001-09-11\n---\nDescription:\nMorning coverage")
}

#[test]
fn broadcast_with_network_and_affiliate_fails() {
    let form = Form::from_news_broadcast_str(&broadcast_text("ABC News", "WABC-TV")).unwrap();
    let r = news_broadcast_from_form(0, &form, &vec![abc()], &vec![wabc()]);
    assert!(matches!(r, Err(EditError::NewsBroadcastCannotHaveNetworkAndAffiliate)));
}

#[test]
fn broadcast_with_neither_fails() {
    let form = Form::from_news_broadcast_str(&broadcast_text("", "")).unwrap();
    let r = news_broadcast_from_form(0, &form, &vec![abc()], &vec![wabc()]);
    assert!(matches!(r, Err(EditError::NewsBroadcastDoesNotHaveNetworkOrAffiliate)));
}

#[test]
fn broadcast_with_one_side_attaches_it() {
    let form = Form::from_news_broadcast_str(&broadcast_text("", "WABC-TV")).unwrap();
    let b = news_broadcast_from_form(9, &form, &vec![abc()], &vec![wabc()]).unwrap();
    assert_eq!(b.id, 9);
    assert!(b.news_network.is_none());
    assert_eq!(b.news_affiliate.as_ref().unwrap().name, "WABC-TV");
    assert_eq!(b.date, Some(sept_11()));
    assert_eq!(b.description.as_deref(), Some("Morning coverage"));
    let form = Form::from_news_broadcast_str(&broadcast_text("ABC News", "")).unwrap();
    let b = news_broadcast_from_form(9, &form, &vec![abc()], &vec![wabc()]).unwrap();
    assert_eq!(b.news_network.as_ref().unwrap().id, 1);
    assert!(b.news_affiliate.is_none());
}

#[test]
fn broadcast_naming_unknown_network_fails() {
    let form = Form::from_news_broadcast_str(&broadcast_text("NBC", "")).unwrap();
    let r = news_broadcast_from_form(0, &form, &vec![abc()], &vec![wabc()]);
    assert!(matches!(&r, Err(EditError::NotInList(v, l)) if v == "NBC" && l == "networks"));
    assert_eq!(r.err().unwrap().message(), "NBC is not in the networks list");
}

#[test]
fn broadcast_form_renders_blank_sides() {
    let f = Form::from_news_broadcast(&broadcasts().remove(0));
    assert_eq!(f.as_string(), "Network:\n---\nAffiliate: WABC-TV\n---\nDate: 2001-09-11\n---\nDescription:");
}

#[test]
fn video_form_round_trip() {
    let master = MasterVideo {
        categories: vec![Category::News],
        date: Some(sept_11()),
        description: "d".to_string(),
        id: 2,
        links: vec![],
        news_broadcasts: vec![],
        nist_files: vec![],
        nist_notes: None,
        people: vec![],
        timestamps: vec![],
        title: "Master".to_string(),
    };
    let v = Video {
        description: None,
        duration_ms: 3_723_000,
        id: 8,
        is_primary: true,
        link: "https://example.com/v".to_string(),
        master,
        title: "Clip".to_string(),
    };
    let form = Form::from_video(&v);
    assert_eq!(
        form.as_string(),
        "Master: Master\n---\nTitle: Clip\n---\nDescription:\n\n---\nLink: https://example.com/v\n---\nDuration: 01:02:03\n---\nPrimary: Yes"
    );
    let back = Form::from_video_str(&form.as_string()).unwrap();
    let masters = vec![v.master];
    let v2 = video_from_form(8, &back, &masters).unwrap();
    assert_eq!(v2.duration_ms, 3_723_000);
    assert!(v2.is_primary);
    assert_eq!(v2.master.id, 2);
    assert!(v2.description.is_none());
    assert_eq!(v2.link, "https://example.com/v");
    let r = video_from_form(8, &back, &vec![]);
    assert!(matches!(r, Err(EditError::NotInList(v, l)) if v == "Master" && l == "masters"));
}

#[test]
fn durations() {
    assert_eq!(parse_duration("01:02:03"), Some(3_723_000));
    assert_eq!(parse_duration("00:00:01.250"), Some(1_250));
    assert_eq!(parse_duration("0"), Some(0));
    assert_eq!(parse_duration("aa:00:00"), None);
    assert_eq!(duration_to_string(3_723_999), "01:02:03");
    assert_eq!(duration_to_string(100 * 3_600_000), "100:00:00");
}

#[test]
fn dates() {
    assert_eq!(Date::parse("2001-09-11"), Some(sept_11()));
    assert_eq!(Date::parse("2001-13-01"), None);
    assert_eq!(Date::parse("yesterday"), None);
    assert_eq!(sept_11().to_string(), "2001-09-11");
    assert_eq!(Date { year: 12, month: 1, day: 2 }.to_string(), "0012-01-02");
    assert_eq!(Date { year: 10000, month: 1, day: 2 }.to_string(), "+10000-01-02");
    assert_eq!(Date { year: -5, month: 1, day: 2 }.to_string(), "-0005-01-02");
}

#[test]
fn nist_tape_form_lists_release_files() {
    let t = NistTape {
        tape_id: 1,
        video_id: 2,
        tape_name: "Tape".to_string(),
        release_files: vec![("r1/a.avi".to_string(), 5), ("r1/b.avi".to_string(), 6)],
    };
    let f = Form::from_nist_tape(&t);
    assert_eq!(f.as_string(), "NIST Files:\nr1/a.avi\nr1/b.avi");
    assert!(matches!(
        Form::from_nist_tape_str("NIST Files:\na\n---\nb"),
        Err(FormError::MalformedForm)
    ));
    let back = Form::from_nist_tape_str("NIST Files:\nr1/a.avi\nr2/c.avi\n").unwrap();
    let files = get_release_files_from_form(&back).unwrap();
    assert_eq!(files, vec![("r1/a.avi".to_string(), 0), ("r2/c.avi".to_string(), 0)]);
}

#[test]
fn nist_video_form_round_trip() {
    let v = NistVideo {
        video_id: 3,
        video_title: "V".to_string(),
        is_missing: true,
        additional_notes: Some("Tape damaged".to_string()),
    };
    let f = Form::from_nist_video(&v);
    assert_eq!(f.as_string(), "Missing?: Yes\n---\nAdditional Notes:\nTape damaged");
    let back = Form::from_nist_video_str(&f.as_string()).unwrap();
    let (missing, notes) = get_missing_and_additional_notes_field(&back).unwrap();
    assert!(missing);
    assert_eq!(notes, "Tape damaged");
}

#[test]
fn form_lookups() {
    let mut form = Form::new();
    form.add_field(Field::Text(archive_forms::fields::TextField::new("Title", "x")));
    assert_eq!(form.get_value("Title").unwrap(), "x");
    assert!(matches!(form.get_value("Other"), Err(FormError::FieldNotFound(n)) if n == "Other"));
    assert!(matches!(form.get_values("Title"), Err(FormError::IncorrectType(_))));
    assert!(matches!(form.get_flag("Title"), Err(FormError::IncorrectType(_))));
    assert_eq!(form.get_field("Title").unwrap().name(), "Title");
    let f = Field::parse(Kind::OptionalList, "Links", "Links: a; b").unwrap();
    assert_eq!(f.value(), "a; b");
}

#[test]
fn people_from_input_reuse_known_identity() {
    let known = vec![person(4, "Lori Stokes", PersonType::Reporter)];
    let input = vec!["Lori Stokes".to_string(), "New Person".to_string()];
    let found = get_people_from_input(&input, &known, PersonType::Eyewitness);
    assert_eq!(found.len(), 2);
    assert_eq!(found[0].id, 4);
    assert_eq!(found[0].types, vec![PersonType::Eyewitness]);
    assert_eq!(found[1].id, 0);
}

#[test]
fn people_as_string_lists_role() {
    let m = MasterVideo {
        categories: vec![],
        date: None,
        description: String::new(),
        id: 0,
        links: vec![],
        news_broadcasts: vec![],
        nist_files: vec![],
        nist_notes: None,
        people: vec![
            person(1, "A", PersonType::Reporter),
            person(2, "B", PersonType::Fire),
            person(3, "C", PersonType::Reporter),
        ],
        timestamps: vec![],
        title: String::new(),
    };
    assert_eq!(m.people_as_string("Reporters", PersonType::Reporter), "Reporters:A; C");
    assert_eq!(m.people_as_string("Police", PersonType::Police), "Police:");
}

#[test]
fn paths_lose_first_two_parts() {
    assert_eq!(strip_first_two_directories("a/b/c/d.avi"), "c/d.avi");
    assert_eq!(strip_first_two_directories("/mnt/releases/r1/x"), "releases/r1/x");
    assert_eq!(strip_first_two_directories("a/b"), "");
    assert_eq!(strip_first_two_directories("./a/b/c"), "b/c");
    assert_eq!(strip_first_two_directories("a/./b/c"), "c");
    assert_eq!(strip_first_two_directories("."), "");
}

#[test]
fn category_and_role_texts() {
    assert_eq!(Category::from_text("survivor-account"), Some(Category::SurvivorAccount));
    assert_eq!(Category::from_text("nope"), None);
    assert_eq!(Category::ProfessionalFootage.to_string(), "professional-footage");
    assert_eq!(PersonType::PortAuthority.to_string(), "Port Authority");
    assert_eq!(ContentType::Video.as_str(), "video");
}

#[test]
fn missing_field_is_a_form_error() {
    let form = Form::new();
    let r = news_network_from_form(1, &form);
    assert!(matches!(&r, Err(EditError::Form(FormError::FieldNotFound(n))) if n == "Name"));
    assert_eq!(r.err().unwrap().message(), "Field Name not found");
    let r = master_video_from_form(0, &form, &vec![], &vec![]);
    assert!(matches!(r, Err(EditError::Form(FormError::FieldNotFound(n))) if n == "News Broadcasts"));
}

#[test]
fn bad_duration_is_an_error() {
    let master = MasterVideo {
        categories: vec![],
        date: None,
        description: String::new(),
        id: 2,
        links: vec![],
        news_broadcasts: vec![],
        nist_files: vec![],
        nist_notes: None,
        people: vec![],
        timestamps: vec![],
        title: "Master".to_string(),
    };
    let text = "Master: Master\n---\nTitle: Clip\n---\nDescription:\n---\nLink: l\n---\nDuration: 1h:2m:3s\n---\nPrimary: No";
    let form = Form::from_video_str(text).unwrap();
    let r = video_from_form(1, &form, &vec![master]);
    assert!(matches!(r, Err(EditError::InvalidDuration(d)) if d == "1h:2m:3s"));
}

#[test]
fn video_files_by_extension() {
    assert!(is_video_file("release/tape1.AVI"));
    assert!(is_video_file("a/b/c.mpeg"));
    assert!(!is_video_file("a/b/c.jpg"));
    assert!(!is_video_file("a/b/.avi"));
    assert!(!is_video_file("a/b/avi"));
    assert!(is_video_file("x..vob"));
    assert!(is_video_file("dir/clip.mp4/"));
    assert!(is_video_file("dir/clip.mp4/."));
    assert!(!is_video_file("dir/clip.mp4/.."));
}

#[test]
fn master_video_without_date_reads_back_without_date() {
    let m = MasterVideo {
        categories: vec![Category::Compilation],
        date: None,
        description: "Undated".to_string(),
        id: 6,
        links: vec![],
        news_broadcasts: vec![],
        nist_files: vec![],
        nist_notes: None,
        people: vec![],
        timestamps: vec![],
        title: "Reel".to_string(),
    };
    let text = Form::from_master_video(&m).as_string();
    assert!(text.contains("\n---\nDate:\n---\n"));
    let form = Form::from_master_video_str(&text).unwrap();
    let back = master_video_from_form(6, &form, &vec![], &vec![]).unwrap();
    assert_eq!(back.date, None);
    assert_eq!(back.title, "Reel");
}

#[test]
fn broadcast_without_description_reads_back_without_one() {
    let b = NewsBroadcast {
        id: 3,
        date: Some(sept_11()),
        description: None,
        news_network: Some(abc()),
        news_affiliate: None,
    };
    let text = Form::from_news_broadcast(&b).as_string();
    let form = Form::from_news_broadcast_str(&text).unwrap();
    let back = news_broadcast_from_form(3, &form, &vec![abc()], &vec![]).unwrap();
    assert!(back.description.is_none());
    assert_eq!(back.news_network.unwrap().id, 1);
}

#[test]
fn label_is_stripped_once() {
    let f = archive_forms::fields::TextField::from_input_str(" T", " T: T: a").unwrap();
    assert_eq!(f.value, "T: a");
}
