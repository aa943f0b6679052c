//! Timestamped events of a master video, written one per line as
//! `HH:MM:SS: description [HHMM] [event-type]`, the time of day optional.
use crate::dates::{padded, padded_of};
use crate::errors::{EditError, EditErrorView};
use crate::text::{equal_strs, trim, trim_str, views};
use crate::videos::duration_text;
use vstd::prelude::*;
use vstd::string::*;

verus! {

/// What happens at a moment of footage.
#[derive(Clone, Copy, PartialEq, Eq, Structural, Debug)]
pub enum EventType {
    CameraSource,
    Jumper,
    Key,
    Normal,
    Person,
    PentagonAttack,
    Report,
    Wtc1Collapse,
    Wtc1Impact,
    Wtc2Collapse,
    Wtc2Impact,
}

/// How an event type is written.
pub open spec fn event_type_text(t: EventType) -> Seq<char> {
    match t {
        EventType::CameraSource => "camera-source"@,
        EventType::Jumper => "jumper"@,
        EventType::Key => "key"@,
        EventType::Normal => "normal"@,
        EventType::Person => "person"@,
        EventType::PentagonAttack => "pentagon-attack"@,
        EventType::Report => "report"@,
        EventType::Wtc1Collapse => "wtc1-collapse"@,
        EventType::Wtc1Impact => "wtc1-impact"@,
        EventType::Wtc2Collapse => "wtc2-collapse"@,
        EventType::Wtc2Impact => "wtc2-impact"@,
    }
}

/// The event type written as `s`, if any.
pub open spec fn event_type_of(s: Seq<char>) -> Option<EventType> {
    if s == event_type_text(EventType::CameraSource) {
        Some(EventType::CameraSource)
    } else if s == event_type_text(EventType::Jumper) {
        Some(EventType::Jumper)
    } else if s == event_type_text(EventType::Key) {
        Some(EventType::Key)
    } else if s == event_type_text(EventType::Normal) {
        Some(EventType::Normal)
    } else if s == event_type_text(EventType::Person) {
        Some(EventType::Person)
    } else if s == event_type_text(EventType::PentagonAttack) {
        Some(EventType::PentagonAttack)
    } else if s == event_type_text(EventType::Report) {
        Some(EventType::Report)
    } else if s == event_type_text(EventType::Wtc1Collapse) {
        Some(EventType::Wtc1Collapse)
    } else if s == event_type_text(EventType::Wtc1Impact) {
        Some(EventType::Wtc1Impact)
    } else if s == event_type_text(EventType::Wtc2Collapse) {
        Some(EventType::Wtc2Collapse)
    } else if s == event_type_text(EventType::Wtc2Impact) {
        Some(EventType::Wtc2Impact)
    } else {
        None
    }
}

impl EventType {
    pub fn as_str(&self) -> (r: &'static str)
        ensures
            r@ == event_type_text(*self),
    {
        match self {
            EventType::CameraSource => "camera-source",
            EventType::Jumper => "jumper",
            EventType::Key => "key",
            EventType::Normal => "normal",
            EventType::Person => "person",
            EventType::PentagonAttack => "pentagon-attack",
            EventType::Report => "report",
            EventType::Wtc1Collapse => "wtc1-collapse",
            EventType::Wtc1Impact => "wtc1-impact",
            EventType::Wtc2Collapse => "wtc2-collapse",
            EventType::Wtc2Impact => "wtc2-impact",
        }
    }

    /// The event type written as `s`.
    pub fn from_text(s: &str) -> (r: Option<EventType>)
        ensures
            r == event_type_of(s@),
    {
        if equal_strs(s, "camera-source") {
            Some(EventType::CameraSource)
        } else if equal_strs(s, "jumper") {
            Some(EventType::Jumper)
        } else if equal_strs(s, "key") {
            Some(EventType::Key)
        } else if equal_strs(s, "normal") {
            Some(EventType::Normal)
        } else if equal_strs(s, "person") {
            Some(EventType::Person)
        } else if equal_strs(s, "pentagon-attack") {
            Some(EventType::PentagonAttack)
        } else if equal_strs(s, "report") {
            Some(EventType::Report)
        } else if equal_strs(s, "wtc1-collapse") {
            Some(EventType::Wtc1Collapse)
        } else if equal_strs(s, "wtc1-impact") {
            Some(EventType::Wtc1Impact)
        } else if equal_strs(s, "wtc2-collapse") {
            Some(EventType::Wtc2Collapse)
        } else if equal_strs(s, "wtc2-impact") {
            Some(EventType::Wtc2Impact)
        } else {
            None
        }
    }
}

/// An event at a moment of a master video: the moment, in milliseconds
/// from the start; what happens; its kind; and, if known, the time of day,
/// as hour and minute.
#[derive(Debug)]
pub struct EventTimestamp {
    pub id: i32,
    pub description: String,
    pub timestamp_ms: u64,
    pub event_type: EventType,
    pub time_of_day: Option<(u32, u32)>,
}

pub struct EventTimestampView {
    pub id: i32,
    pub description: Seq<char>,
    pub timestamp_ms: u64,
    pub event_type: EventType,
    pub time_of_day: Option<(u32, u32)>,
}

impl View for EventTimestamp {
    type V = EventTimestampView;

    open spec fn view(&self) -> EventTimestampView {
        EventTimestampView {
            id: self.id,
            description: self.description@,
            timestamp_ms: self.timestamp_ms,
            event_type: self.event_type,
            time_of_day: self.time_of_day,
        }
    }
}

pub open spec fn event_views(v: Seq<EventTimestamp>) -> Seq<EventTimestampView> {
    Seq::new(v.len(), |i: int| v[i]@)
}

pub open spec fn event_texts(v: Seq<EventTimestampView>) -> Seq<Seq<char>> {
    Seq::new(v.len(), |i: int| event_text(v[i]))
}

/// Each line read as an event; the first line that is not one is the error.
pub open spec fn events_from(lines: Seq<Seq<char>>) -> Result<Seq<EventTimestampView>, EditErrorView>
    decreases lines.len(),
{
    if lines.len() == 0 {
        Ok(Seq::empty())
    } else {
        match events_from(lines.drop_last()) {
            Err(e) => Err(e),
            Ok(es) => match parse_event(lines.last()) {
                None => Err(EditErrorView::InvalidTimestamp(lines.last())),
                Some(e) => Ok(es.push(e)),
            },
        }
    }
}

proof fn lemma_events_stay(lines: Seq<Seq<char>>, i: int)
    requires
        0 <= i <= lines.len(),
        events_from(lines.take(i)) is Err,
    ensures
        events_from(lines) == events_from(lines.take(i)),
    decreases lines.len() - i,
{
    if i < lines.len() {
        assert(lines.take(i + 1).drop_last() =~= lines.take(i));
        lemma_events_stay(lines, i + 1);
    } else {
        assert(lines.take(i) =~= lines);
    }
}

/// Reads each line as an event.
pub fn events_from_lines(lines: &Vec<String>) -> (r: Result<Vec<EventTimestamp>, EditError>)
    ensures
        r matches Ok(v) ==> events_from(views(lines@)) == Ok::<
            Seq<EventTimestampView>,
            EditErrorView,
        >(event_views(v@)),
        r matches Err(e) ==> events_from(views(lines@)) == Err::<
            Seq<EventTimestampView>,
            EditErrorView,
        >(e@),
{
    let ghost ls = views(lines@);
    let mut out: Vec<EventTimestamp> = Vec::new();
    let mut i: usize = 0;
    assert(ls.take(0) =~= Seq::<Seq<char>>::empty());
    assert(event_views(out@) =~= Seq::<EventTimestampView>::empty());
    while i < lines.len()
        invariant
            ls == views(lines@),
            i <= lines@.len(),
            events_from(ls.take(i as int)) == Ok::<Seq<EventTimestampView>, EditErrorView>(
                event_views(out@),
            ),
        decreases lines.len() - i,
    {
        proof {
            assert(ls.take(i + 1).drop_last() =~= ls.take(i as int));
            assert(ls.take(i + 1).last() == lines@[i as int]@);
        }
        match EventTimestamp::parse(lines[i].as_str()) {
            Some(e) => {
                let ghost before = event_views(out@);
                out.push(e);
                assert(event_views(out@) =~= before.push(e@));
            },
            None => {
                proof {
                    lemma_events_stay(ls, (i + 1) as int);
                }
                return Err(EditError::InvalidTimestamp(lines[i].clone()));
            },
        }
        i = i + 1;
    }
    assert(ls.take(lines@.len() as int) =~= ls);
    Ok(out)
}

/// Each event as a line.
pub fn event_lines(v: &Vec<EventTimestamp>) -> (r: Vec<String>)
    ensures
        views(r@) == event_texts(event_views(v@)),
{
    let mut out: Vec<String> = Vec::new();
    let mut i: usize = 0;
    while i < v.len()
        invariant
            i <= v@.len(),
            out@.len() == i,
            forall|k: int| 0 <= k < i ==> (#[trigger] out@[k])@ == event_text(v@[k]@),
        decreases v.len() - i,
    {
        out.push(v[i].to_string());
        i = i + 1;
    }
    assert(views(out@) =~= event_texts(event_views(v@)));
    out
}

pub fn copy_events(v: &Vec<EventTimestamp>) -> (r: Vec<EventTimestamp>)
    ensures
        event_views(r@) == event_views(v@),
{
    let mut out: Vec<EventTimestamp> = Vec::new();
    let mut i: usize = 0;
    while i < v.len()
        invariant
            i <= v@.len(),
            out@.len() == i,
            forall|k: int| 0 <= k < i ==> (#[trigger] out@[k])@ == v@[k]@,
        decreases v.len() - i,
    {
        out.push(v[i].copied());
        i = i + 1;
    }
    assert(event_views(out@) =~= event_views(v@));
    out
}

pub open spec fn is_ascii_digit(c: char) -> bool {
    '0' <= c && c <= '9'
}

pub open spec fn digit_value(c: char) -> nat {
    ((c as u32) - ('0' as u32)) as nat
}

/// The two-digit number at position `i`.
pub open spec fn two_digits(s: Seq<char>, i: int) -> nat {
    digit_value(s[i]) * 10 + digit_value(s[i + 1])
}

/// The text starts with `HH:MM:SS: `.
pub open spec fn clock_ok(s: Seq<char>) -> bool {
    &&& s.len() >= 10
    &&& is_ascii_digit(s[0]) && is_ascii_digit(s[1]) && s[2] == ':'
    &&& is_ascii_digit(s[3]) && is_ascii_digit(s[4]) && s[5] == ':'
    &&& is_ascii_digit(s[6]) && is_ascii_digit(s[7]) && s[8] == ':'
    &&& s[9] == ' '
}

pub open spec fn clock_ms(s: Seq<char>) -> nat {
    (two_digits(s, 0) * 3600 + two_digits(s, 3) * 60 + two_digits(s, 6)) * 1000
}

/// The position of the last `c` before `end`, or -1.
pub open spec fn last_before(s: Seq<char>, c: char, end: int) -> int
    decreases end,
{
    if end <= 0 {
        -1
    } else if s[end - 1] == c {
        end - 1
    } else {
        last_before(s, c, end - 1)
    }
}

pub open spec fn no_newline(s: Seq<char>) -> bool {
    forall|i: int| 0 <= i < s.len() ==> #[trigger] s[i] != '\n'
}

/// Four digits, or nothing.
pub open spec fn clock_tag(t: Seq<char>) -> bool {
    t.len() == 0 || (t.len() == 4 && is_ascii_digit(t[0]) && is_ascii_digit(t[1])
        && is_ascii_digit(t[2]) && is_ascii_digit(t[3]))
}

/// The time of day four digits give, when they are a valid hour and minute.
pub open spec fn time_of_day_of(t: Seq<char>) -> Option<(u32, u32)> {
    if t.len() == 4 && two_digits(t, 0) < 24 && two_digits(t, 2) < 60 {
        Some((two_digits(t, 0) as u32, two_digits(t, 2) as u32))
    } else {
        None
    }
}

/// Reading an event line. It ends in ` [event-type]`, the type one of the
/// known ones; before that comes the description, optionally followed by
/// ` [HHMM]` or ` []`. The description is one line of at least one
/// character, trimmed.
pub open spec fn parse_event(s: Seq<char>) -> Option<EventTimestampView> {
    let n = s.len() as int;
    let lb = last_before(s, '[', n);
    if !(clock_ok(s) && s[n - 1] == ']' && lb >= 11 && s[lb - 1] == ' ') {
        None
    } else {
        match event_type_of(s.subrange(lb + 1, n - 1)) {
            None => None,
            Some(t) => {
                let body = s.subrange(10, lb - 1);
                let m = body.len() as int;
                let j = last_before(body, '[', m);
                let inner = if m >= 1 && j >= 0 {
                    body.subrange(j + 1, m - 1)
                } else {
                    Seq::empty()
                };
                let desc = body.subrange(0, j - 1);
                if m >= 1 && body[m - 1] == ']' && j >= 2 && body[j - 1] == ' ' && clock_tag(inner)
                    && no_newline(desc) {
                    Some(
                        EventTimestampView {
                            id: 0,
                            description: trim(desc),
                            timestamp_ms: clock_ms(s) as u64,
                            event_type: t,
                            time_of_day: time_of_day_of(inner),
                        },
                    )
                } else if m >= 1 && no_newline(body) {
                    Some(
                        EventTimestampView {
                            id: 0,
                            description: trim(body),
                            timestamp_ms: clock_ms(s) as u64,
                            event_type: t,
                            time_of_day: None,
                        },
                    )
                } else {
                    None
                }
            },
        }
    }
}

/// An event written as a line.
pub open spec fn event_text(e: EventTimestampView) -> Seq<char> {
    duration_text(e.timestamp_ms as nat) + seq![':', ' '] + e.description + match e.time_of_day {
        Some(t) => seq![' ', '['] + padded(t.0 as nat, 2) + padded(t.1 as nat, 2) + seq![']'],
        None => Seq::empty(),
    } + seq![' ', '['] + event_type_text(e.event_type) + seq![']']
}

fn last_index_before(s: &str, c: char, end: usize) -> (r: Option<usize>)
    requires
        end <= s@.len(),
    ensures
        r matches Some(k) ==> k as int == last_before(s@, c, end as int) && k < end && s@[k as int]
            == c,
        r is None ==> last_before(s@, c, end as int) == -1,
{
    let mut k: usize = end;
    while k > 0
        invariant
            k <= end,
            end <= s@.len(),
            last_before(s@, c, end as int) == last_before(s@, c, k as int),
        decreases k,
    {
        if s.get_char(k - 1) == c {
            return Some(k - 1);
        }
        k = k - 1;
    }
    None
}

fn ascii_digit(c: char) -> (r: bool)
    ensures
        r == is_ascii_digit(c),
{
    '0' <= c && c <= '9'
}

fn two_digits_at(s: &str, i: usize) -> (r: u32)
    requires
        i <= 8,
        i + 1 < s@.len(),
        is_ascii_digit(s@[i as int]),
        is_ascii_digit(s@[i + 1]),
    ensures
        r as nat == two_digits(s@, i as int),
        r < 100,
{
    let a = (s.get_char(i) as u32) - ('0' as u32);
    let b = (s.get_char(i + 1) as u32) - ('0' as u32);
    a * 10 + b
}

fn free_of_newline(s: &str) -> (r: bool)
    ensures
        r == no_newline(s@),
{
    let n = s.unicode_len();
    let mut i: usize = 0;
    while i < n
        invariant
            n == s@.len(),
            i <= n,
            forall|j: int| 0 <= j < i ==> s@[j] != '\n',
        decreases n - i,
    {
        if s.get_char(i) == '\n' {
            return false;
        }
        i = i + 1;
    }
    true
}

impl EventTimestamp {
    pub fn copied(&self) -> (r: EventTimestamp)
        ensures
            r@ == self@,
    {
        EventTimestamp {
            id: self.id,
            description: self.description.clone(),
            timestamp_ms: self.timestamp_ms,
            event_type: self.event_type,
            time_of_day: self.time_of_day,
        }
    }

    /// Reads an event line.
    pub fn parse(s: &str) -> (r: Option<EventTimestamp>)
        ensures
            r matches Some(e) ==> parse_event(s@) == Some(e@),
            r is None ==> parse_event(s@) is None,
    {
        let n = s.unicode_len();
        if n < 10 {
            return None;
        }
        if !(ascii_digit(s.get_char(0)) && ascii_digit(s.get_char(1)) && s.get_char(2) == ':'
            && ascii_digit(s.get_char(3)) && ascii_digit(s.get_char(4)) && s.get_char(5) == ':'
            && ascii_digit(s.get_char(6)) && ascii_digit(s.get_char(7)) && s.get_char(8) == ':'
            && s.get_char(9) == ' ') {
            return None;
        }
        let lb = match last_index_before(s, '[', n) {
            Some(k) => k,
            None => return None,
        };
        if !(s.get_char(n - 1) == ']' && lb >= 11) {
            return None;
        }
        if s.get_char(lb - 1) != ' ' {
            return None;
        }
        let event_type = match EventType::from_text(s.substring_char(lb + 1, n - 1)) {
            Some(t) => t,
            None => return None,
        };
        let ms: u64 = ((two_digits_at(s, 0) as u64) * 3600 + (two_digits_at(s, 3) as u64) * 60
            + (two_digits_at(s, 6) as u64)) * 1000;
        let body = s.substring_char(10, lb - 1);
        let m = body.unicode_len();
        let found = last_index_before(body, '[', m);
        let j: usize = match found {
            Some(k) => k,
            None => 0,
        };
        if m >= 1 && body.get_char(m - 1) == ']' && j >= 2 {
            let inner = body.substring_char(j + 1, m - 1);
            let k = inner.unicode_len();
            let tag_ok = k == 0 || (k == 4 && ascii_digit(inner.get_char(0)) && ascii_digit(
                inner.get_char(1),
            ) && ascii_digit(inner.get_char(2)) && ascii_digit(inner.get_char(3)));
            let desc = body.substring_char(0, j - 1);
            if body.get_char(j - 1) == ' ' && tag_ok && free_of_newline(desc) {
                let time_of_day = if k == 4 {
                    let h = two_digits_at(inner, 0);
                    let mi = two_digits_at(inner, 2);
                    if h < 24 && mi < 60 {
                        Some((h, mi))
                    } else {
                        None
                    }
                } else {
                    None
                };
                return Some(
                    EventTimestamp {
                        id: 0,
                        description: trim_str(desc),
                        timestamp_ms: ms,
                        event_type,
                        time_of_day,
                    },
                );
            }
        }
        if m >= 1 && free_of_newline(body) {
            Some(
                EventTimestamp {
                    id: 0,
                    description: trim_str(body),
                    timestamp_ms: ms,
                    event_type,
                    time_of_day: None,
                },
            )
        } else {
            None
        }
    }

    /// The event as a line.
    pub fn to_string(&self) -> (r: String)
        ensures
            r@ == event_text(self@),
    {
        proof {
            reveal_strlit(": ");
            reveal_strlit(" [");
            reveal_strlit("]");
            assert(": "@ =~= seq![':', ' ']);
            assert(" ["@ =~= seq![' ', '[']);
            assert("]"@ =~= seq![']']);
        }
        let mut s = crate::videos::duration_to_string(self.timestamp_ms).concat(": ").concat(
            self.description.as_str(),
        );
        match self.time_of_day {
            Some(t) => {
                s = s.concat(" [").concat(padded_of(t.0 as u64, 2).as_str()).concat(
                    padded_of(t.1 as u64, 2).as_str(),
                ).concat("]");
            },
            None => {},
        }
        s.concat(" [").concat(self.event_type.as_str()).concat("]")
    }
}


proof fn lemma_padded_two(n: nat)
    requires
        n < 100,
    ensures
        padded(n, 2).len() == 2,
        is_ascii_digit(padded(n, 2)[0]),
        is_ascii_digit(padded(n, 2)[1]),
        two_digits(padded(n, 2), 0) == n,
{
    let p = padded(n, 2);
    if n < 10 {
        assert(crate::dates::digits(n) == seq![crate::dates::digit_char(n)]);
        assert(p =~= seq!['0', crate::dates::digit_char(n)]);
    } else {
        assert(crate::dates::digits(n / 10) == seq![crate::dates::digit_char(n / 10)]);
        assert(crate::dates::digits(n) == crate::dates::digits(n / 10).push(
            crate::dates::digit_char(n % 10),
        ));
        assert(p =~= seq![crate::dates::digit_char(n / 10), crate::dates::digit_char(n % 10)]);
    }
}

proof fn lemma_event_type_text(t: EventType)
    ensures
        event_type_of(event_type_text(t)) == Some(t),
        event_type_text(t).len() > 0,
        forall|i: int|
            0 <= i < event_type_text(t).len() ==> #[trigger] event_type_text(t)[i] != '[',
{
    reveal_strlit("camera-source");
    reveal_strlit("jumper");
    reveal_strlit("key");
    reveal_strlit("normal");
    reveal_strlit("person");
    reveal_strlit("pentagon-attack");
    reveal_strlit("report");
    reveal_strlit("wtc1-collapse");
    reveal_strlit("wtc1-impact");
    reveal_strlit("wtc2-collapse");
    reveal_strlit("wtc2-impact");
    assert(event_type_text(EventType::CameraSource).len() == 13);
    assert(event_type_text(EventType::CameraSource)[0] == 'c');
    assert(event_type_text(EventType::CameraSource)[3] == 'e');
    assert(event_type_text(EventType::Jumper).len() == 6);
    assert(event_type_text(EventType::Jumper)[0] == 'j');
    assert(event_type_text(EventType::Jumper)[3] == 'p');
    assert(event_type_text(EventType::Key).len() == 3);
    assert(event_type_text(EventType::Key)[0] == 'k');
    assert(event_type_text(EventType::Normal).len() == 6);
    assert(event_type_text(EventType::Normal)[0] == 'n');
    assert(event_type_text(EventType::Normal)[3] == 'm');
    assert(event_type_text(EventType::Person).len() == 6);
    assert(event_type_text(EventType::Person)[0] == 'p');
    assert(event_type_text(EventType::Person)[3] == 's');
    assert(event_type_text(EventType::PentagonAttack).len() == 15);
    assert(event_type_text(EventType::PentagonAttack)[0] == 'p');
    assert(event_type_text(EventType::PentagonAttack)[3] == 't');
    assert(event_type_text(EventType::Report).len() == 6);
    assert(event_type_text(EventType::Report)[0] == 'r');
    assert(event_type_text(EventType::Report)[3] == 'o');
    assert(event_type_text(EventType::Wtc1Collapse).len() == 13);
    assert(event_type_text(EventType::Wtc1Collapse)[0] == 'w');
    assert(event_type_text(EventType::Wtc1Collapse)[3] == '1');
    assert(event_type_text(EventType::Wtc1Impact).len() == 11);
    assert(event_type_text(EventType::Wtc1Impact)[0] == 'w');
    assert(event_type_text(EventType::Wtc1Impact)[3] == '1');
    assert(event_type_text(EventType::Wtc2Collapse).len() == 13);
    assert(event_type_text(EventType::Wtc2Collapse)[0] == 'w');
    assert(event_type_text(EventType::Wtc2Collapse)[3] == '2');
    assert(event_type_text(EventType::Wtc2Impact).len() == 11);
    assert(event_type_text(EventType::Wtc2Impact)[0] == 'w');
    assert(event_type_text(EventType::Wtc2Impact)[3] == '2');
}

proof fn lemma_last_before_at(s: Seq<char>, c: char, k: int, end: int)
    requires
        0 <= k < end <= s.len(),
        s[k] == c,
        forall|i: int| k < i < end ==> #[trigger] s[i] != c,
    ensures
        last_before(s, c, end) == k,
    decreases end - k,
{
    if end - 1 > k {
        lemma_last_before_at(s, c, k, end - 1);
    }
}

/// An event line the parser reads back as written: whole seconds below a
/// hundred hours, a one-line trimmed description that does not end in `]`,
/// and a valid time of day.
pub open spec fn event_ok(e: EventTimestampView) -> bool {
    &&& e.timestamp_ms % 1000 == 0
    &&& e.timestamp_ms < 360000000
    &&& e.description.len() > 0
    &&& !crate::text::is_ws(e.description[0])
    &&& !crate::text::is_ws(e.description.last())
    &&& e.description.last() != ']'
    &&& no_newline(e.description)
    &&& (e.time_of_day matches Some(t) ==> t.0 < 24 && t.1 < 60)
}

/// An event line reads back as the event it was written from.
#[verifier::rlimit(80)]
pub proof fn event_round_trip(e: EventTimestampView)
    requires
        event_ok(e),
    ensures
        parse_event(event_text(e)) == Some(EventTimestampView { id: 0, ..e }),
{
    let ms = e.timestamp_ms as nat;
    let h = ms / 3600000;
    let mi = (ms / 60000) % 60;
    let se = (ms / 1000) % 60;
    assert(h < 100);
    lemma_padded_two(h);
    lemma_padded_two(mi);
    lemma_padded_two(se);
    lemma_event_type_text(e.event_type);
    let clock = duration_text(ms);
    let d = e.description;
    let tod = match e.time_of_day {
        Some(t) => seq![' ', '['] + padded(t.0 as nat, 2) + padded(t.1 as nat, 2) + seq![']'],
        None => Seq::<char>::empty(),
    };
    let ty = event_type_text(e.event_type);
    let s = event_text(e);
    let body = d + tod;
    assert(s =~= clock + seq![':', ' '] + body + seq![' ', '['] + ty + seq![']']);
    assert(clock.len() == 8);
    let n = s.len() as int;
    let lb: int = 10 + body.len() as int + 1;
    assert(s[lb] == '[');
    assert forall|i: int| lb < i < n implies #[trigger] s[i] != '[' by {
        if i < n - 1 {
            assert(s[i] == ty[i - lb - 1]);
        }
    }
    lemma_last_before_at(s, '[', lb, n);
    assert(clock_ok(s)) by {
        assert(s[0] == clock[0]);
        assert(s[1] == clock[1]);
        assert(s[3] == clock[3]);
        assert(s[4] == clock[4]);
        assert(s[6] == clock[6]);
        assert(s[7] == clock[7]);
    }
    assert(clock_ms(s) == ms) by {
        assert(two_digits(s, 0) == two_digits(padded(h, 2), 0));
        assert(two_digits(s, 3) == two_digits(padded(mi, 2), 0));
        assert(two_digits(s, 6) == two_digits(padded(se, 2), 0));
        assert((h * 3600 + mi * 60 + se) * 1000 == ms) by (nonlinear_arith)
            requires
                h == ms / 3600000,
                mi == (ms / 60000) % 60,
                se == (ms / 1000) % 60,
                ms % 1000 == 0,
        ;
    }
    assert(s.subrange(lb + 1, n - 1) =~= ty);
    assert(s.subrange(10, lb - 1) =~= body);
    crate::round_trip::lemma_trim_plain(d);
    let m = body.len() as int;
    match e.time_of_day {
        Some(t) => {
            lemma_padded_two(t.0 as nat);
            lemma_padded_two(t.1 as nat);
            let j: int = d.len() as int + 1;
            assert(body[j] == '[');
            assert forall|i: int| j < i < m implies #[trigger] body[i] != '[' by {
                assert(body[i] == tod[i - d.len()]);
            }
            lemma_last_before_at(body, '[', j, m);
            let inner = body.subrange(j + 1, m - 1);
            assert(inner =~= padded(t.0 as nat, 2) + padded(t.1 as nat, 2));
            assert(body.subrange(0, j - 1) =~= d);
            assert(two_digits(inner, 0) == two_digits(padded(t.0 as nat, 2), 0));
            assert(two_digits(inner, 2) == two_digits(padded(t.1 as nat, 2), 0));
        },
        None => {
            assert(body =~= d);
            assert(body[m - 1] != ']');
        },
    }
}

} // verus!
