//! The form of a video, and the `HH:MM:SS` durations it shows.
use crate::dates::{padded, padded_of};
use crate::errors::{EditError, EditErrorView, FormError, FormErrorView};
use crate::fields::{
    same_word, yes_word, BooleanField, ChoiceField, OptionalMultilineTextField, TextField,
};
use crate::forms::{flag_field, parse_form, single, value_of, Field, FieldView, Form, Kind};
use crate::models::{MasterVideo, MasterVideoView, Video, VideoView};
use crate::news::{form_result, text_or_empty};
use crate::text::{first_index, split, split_str, views};
use vstd::prelude::*;
use vstd::string::*;

verus! {

pub open spec fn is_digit(c: char) -> bool {
    '0' <= c && c <= '9'
}

/// Decimal digits, at least one.
pub open spec fn all_digits(s: Seq<char>) -> bool {
    s.len() > 0 && forall|i: int| 0 <= i < s.len() ==> is_digit(#[trigger] s[i])
}

/// The number that decimal digits write.
pub open spec fn number(s: Seq<char>) -> nat
    decreases s.len(),
{
    if s.len() == 0 {
        0
    } else {
        number(s.drop_last()) * 10 + ((s.last() as u32) - ('0' as u32)) as nat
    }
}

/// The milliseconds that `HH:MM:SS`, or `HH:MM:SS.mmm`, writes; a text
/// with other than three `:`-separated parts stands for no time at all.
pub open spec fn duration_ms(s: Seq<char>) -> Option<nat> {
    let parts = split(s, seq![':']);
    if parts.len() != 3 {
        Some(0)
    } else {
        let sp = split(parts[2], seq!['.']);
        if !all_digits(parts[0]) || !all_digits(parts[1]) || !all_digits(sp[0]) || (sp.len() > 1
            && !all_digits(sp[1])) {
            None
        } else {
            Some(
                number(parts[0]) * 3600000 + number(parts[1]) * 60000 + number(sp[0]) * 1000 + (
                if sp.len() > 1 {
                    number(sp[1])
                } else {
                    0
                }),
            )
        }
    }
}

/// A duration as `HH:MM:SS`, the milliseconds dropped.
pub open spec fn duration_text(ms: nat) -> Seq<char> {
    padded(ms / 3600000, 2) + seq![':'] + padded((ms / 60000) % 60, 2) + seq![':'] + padded(
        (ms / 1000) % 60,
        2,
    )
}

proof fn lemma_digit_char(k: nat)
    requires
        k < 10,
    ensures
        is_digit(crate::dates::digit_char(k)),
        (((crate::dates::digit_char(k) as u32) - ('0' as u32)) as nat) == k,
{
}

/// The decimal digits of a number read back as that number.
pub proof fn lemma_number_digits(n: nat)
    ensures
        all_digits(crate::dates::digits(n)),
        number(crate::dates::digits(n)) == n,
    decreases n,
{
    let ds = crate::dates::digits(n);
    lemma_digit_char(n % 10);
    if n < 10 {
        assert(ds == seq![crate::dates::digit_char(n)]);
        assert(ds.drop_last() =~= Seq::<char>::empty());
        assert(number(ds) == number(ds.drop_last()) * 10 + ((ds.last() as u32) - ('0' as u32)) as nat);
    } else {
        lemma_number_digits(n / 10);
        let hi = crate::dates::digits(n / 10);
        assert(ds == hi.push(crate::dates::digit_char(n % 10)));
        assert(ds.drop_last() =~= hi);
        assert(number(ds) == number(hi) * 10 + ((ds.last() as u32) - ('0' as u32)) as nat);
        assert(n / 10 * 10 + n % 10 == n);
        assert forall|i: int| 0 <= i < ds.len() implies is_digit(#[trigger] ds[i]) by {
            if i < hi.len() {
                assert(ds[i] == hi[i]);
            }
        }
    }
}

/// Leading zeros do not change the number.
proof fn lemma_number_zeros(k: nat, ds: Seq<char>)
    ensures
        number(Seq::new(k, |i: int| '0') + ds) == number(ds),
    decreases ds.len() + k,
{
    let z = Seq::new(k, |i: int| '0');
    if ds.len() == 0 {
        assert(z + ds =~= z);
        if k > 0 {
            lemma_number_zeros((k - 1) as nat, Seq::empty());
            assert(z.drop_last() =~= Seq::new((k - 1) as nat, |i: int| '0') + Seq::<char>::empty());
        }
    } else {
        lemma_number_zeros(k, ds.drop_last());
        assert((z + ds).drop_last() =~= z + ds.drop_last());
    }
}

/// A number padded with zeros is all digits and reads back as itself.
pub proof fn lemma_number_padded(n: nat, w: nat)
    ensures
        all_digits(crate::dates::padded(n, w)),
        number(crate::dates::padded(n, w)) == n,
{
    lemma_number_digits(n);
    let ds = crate::dates::digits(n);
    if ds.len() < w {
        let k = (w - ds.len()) as nat;
        lemma_number_zeros(k, ds);
        let p = Seq::new(k, |i: int| '0') + ds;
        assert forall|i: int| 0 <= i < p.len() implies is_digit(#[trigger] p[i]) by {
            if i >= k {
                assert(p[i] == ds[i - k]);
            }
        }
    }
}

proof fn lemma_number_grows(s: Seq<char>, k: int)
    requires
        0 <= k <= s.len(),
    ensures
        number(s) >= number(s.take(k)),
    decreases s.len() - k,
{
    if k < s.len() {
        lemma_number_grows(s, k + 1);
        assert(s.take(k + 1).drop_last() =~= s.take(k));
        let d = ((s.take(k + 1).last() as u32) - ('0' as u32)) as nat;
        assert(number(s.take(k + 1)) == number(s.take(k)) * 10 + d);
        assert(number(s.take(k)) * 10 >= number(s.take(k))) by (nonlinear_arith);
    } else {
        assert(s.take(k) =~= s);
    }
}

/// Reads decimal digits; `None` when the text is not all digits or the
/// number does not fit.
pub fn parse_number(s: &str) -> (r: Option<u64>)
    ensures
        r matches Some(v) ==> all_digits(s@) && v as nat == number(s@),
        r is None ==> !all_digits(s@) || number(s@) > u64::MAX,
{
    let n = s.unicode_len();
    if n == 0 {
        return None;
    }
    let mut v: u64 = 0;
    let mut i: usize = 0;
    while i < n
        invariant
            n == s@.len(),
            i <= n,
            forall|j: int| 0 <= j < i ==> is_digit(#[trigger] s@[j]),
            v as nat == number(s@.take(i as int)),
        decreases n - i,
    {
        let c = s.get_char(i);
        proof {
            assert(s@.take(i + 1).drop_last() =~= s@.take(i as int));
        }
        if !('0' <= c && c <= '9') {
            return None;
        }
        let d = ((c as u32) - ('0' as u32)) as u64;
        let next = match v.checked_mul(10) {
            Some(t) => t.checked_add(d),
            None => None,
        };
        match next {
            Some(t) => {
                v = t;
            },
            None => {
                proof {
                    lemma_number_grows(s@, i + 1);
                }
                return None;
            },
        }
        i = i + 1;
    }
    assert(s@.take(n as int) =~= s@);
    Some(v)
}

/// Reads a duration written `HH:MM:SS` or `HH:MM:SS.mmm`, in milliseconds.
pub fn parse_duration(s: &str) -> (r: Option<u64>)
    ensures
        r matches Some(v) ==> duration_ms(s@) == Some(v as nat),
        r is None ==> duration_ms(s@) is None || duration_ms(s@).unwrap() > u64::MAX,
{
    proof {
        reveal_strlit(":");
        reveal_strlit(".");
        assert(":"@ =~= seq![':']);
        assert("."@ =~= seq!['.']);
    }
    let parts = split_str(s, ":");
    if parts.len() != 3 {
        return Some(0);
    }
    let sp = split_str(parts[2].as_str(), ".");
    assert(views(sp@).len() >= 1);
    assert(views(parts@)[2] == parts@[2]@);
    let h = parse_number(parts[0].as_str());
    let m = parse_number(parts[1].as_str());
    let sec = parse_number(sp[0].as_str());
    let ms = if sp.len() > 1 {
        parse_number(sp[1].as_str())
    } else {
        Some(0)
    };
    assert(views(parts@)[0] == parts@[0]@);
    assert(views(parts@)[1] == parts@[1]@);
    assert(views(sp@)[0] == sp@[0]@);
    if sp.len() > 1 {
        assert(views(sp@)[1] == sp@[1]@);
    }
    match (h, m, sec, ms) {
        (Some(h), Some(m), Some(sec), Some(ms)) => {
            let total = (h as u128) * 3600000 + (m as u128) * 60000 + (sec as u128) * 1000
                + (ms as u128);
            if total > u64::MAX as u128 {
                None
            } else {
                Some(total as u64)
            }
        },
        _ => {
            proof {
                if h is None && all_digits(parts@[0]@) {
                    assert(number(parts@[0]@) * 3600000 >= number(parts@[0]@)) by (nonlinear_arith);
                }
                if m is None && all_digits(parts@[1]@) {
                    assert(number(parts@[1]@) * 60000 >= number(parts@[1]@)) by (nonlinear_arith);
                }
                if sec is None && all_digits(sp@[0]@) {
                    assert(number(sp@[0]@) * 1000 >= number(sp@[0]@)) by (nonlinear_arith);
                }
            }
            None
        },
    }
}

/// A duration as `HH:MM:SS`.
pub fn duration_to_string(ms: u64) -> (r: String)
    ensures
        r@ == duration_text(ms as nat),
{
    proof {
        reveal_strlit(":");
        assert(":"@ =~= seq![':']);
    }
    padded_of(ms / 3600000, 2).concat(":").concat(padded_of((ms / 60000) % 60, 2).as_str()).concat(
        ":",
    ).concat(padded_of((ms / 1000) % 60, 2).as_str())
}

pub open spec fn video_kinds() -> Seq<Kind> {
    seq![Kind::Choice, Kind::Text, Kind::OptionalMultilineText, Kind::Text, Kind::Text, Kind::Boolean]
}

pub open spec fn video_labels() -> Seq<Seq<char>> {
    seq!["Master"@, "Title"@, "Description"@, "Link"@, "Duration"@, "Primary"@]
}

/// The fields of a video's form.
pub open spec fn video_form(v: VideoView) -> Seq<FieldView> {
    seq![
        single(Kind::Choice, "Master"@, v.master.title, Seq::empty()),
        single(Kind::Text, "Title"@, v.title, Seq::empty()),
        single(Kind::OptionalMultilineText, "Description"@, text_or_empty(v.description), Seq::empty()),
        single(Kind::Text, "Link"@, v.link, Seq::empty()),
        single(Kind::Text, "Duration"@, duration_text(v.duration_ms as nat), Seq::empty()),
        flag_field("Primary"@, v.is_primary),
    ]
}

pub open spec fn master_titles(v: Seq<MasterVideoView>) -> Seq<Seq<char>> {
    Seq::new(v.len(), |i: int| v[i].title)
}

pub open spec fn master_views(v: Seq<MasterVideo>) -> Seq<MasterVideoView> {
    Seq::new(v.len(), |i: int| v[i]@)
}

/// The video a completed form describes; its master is the first of the
/// given master videos with the title the form gives.
pub open spec fn video_from_fields(id: i32, fs: Seq<FieldView>, masters: Seq<MasterVideoView>) -> Result<
    VideoView,
    EditErrorView,
> {
    match value_of(fs, "Master"@) {
        Err(e) => Err(EditErrorView::Form(e)),
        Ok(mt) => {
            let k = first_index(master_titles(masters), mt);
            if k < 0 {
                Err(EditErrorView::NotInList(mt, "masters"@))
            } else {
                match value_of(fs, "Title"@) {
                    Err(e) => Err(EditErrorView::Form(e)),
                    Ok(title) => match value_of(fs, "Description"@) {
                        Err(e) => Err(EditErrorView::Form(e)),
                        Ok(desc) => match value_of(fs, "Link"@) {
                            Err(e) => Err(EditErrorView::Form(e)),
                            Ok(link) => match value_of(fs, "Duration"@) {
                                Err(e) => Err(EditErrorView::Form(e)),
                                Ok(dt) => match value_of(fs, "Primary"@) {
                                    Err(e) => Err(EditErrorView::Form(e)),
                                    Ok(primary) => match duration_ms(dt) {
                                        Some(ms) => if ms <= u64::MAX {
                                            Ok(
                                                VideoView {
                                                    description: if desc.len() == 0 {
                                                        None
                                                    } else {
                                                        Some(desc)
                                                    },
                                                    duration_ms: ms as u64,
                                                    id,
                                                    is_primary: same_word(primary, yes_word()),
                                                    link,
                                                    master: masters[k],
                                                    title,
                                                },
                                            )
                                        } else {
                                            Err(EditErrorView::InvalidDuration(dt))
                                        },
                                        None => Err(EditErrorView::InvalidDuration(dt)),
                                    },
                                },
                            },
                        },
                    },
                }
            }
        },
    }
}

pub open spec fn video_result(r: Result<Video, EditError>) -> Result<VideoView, EditErrorView> {
    match r {
        Ok(v) => Ok(v@),
        Err(e) => Err(e@),
    }
}

impl Form {
    /// The form of a video.
    pub fn from_video(video: &Video) -> (r: Form)
        ensures
            r@ == video_form(video@),
    {
        let mut form = Form::new();
        let master = ChoiceField::new("Master", video.master.title.as_str());
        assert(views(master.choices@) =~= Seq::<Seq<char>>::empty());
        form.add_field(Field::Choice(master));
        form.add_field(Field::Text(TextField::new("Title", video.title.as_str())));
        let description = match &video.description {
            Some(d) => d.clone(),
            None => String::new(),
        };
        form.add_field(
            Field::OptionalMultilineText(
                OptionalMultilineTextField::new("Description", description.as_str()),
            ),
        );
        form.add_field(Field::Text(TextField::new("Link", video.link.as_str())));
        let duration = duration_to_string(video.duration_ms);
        form.add_field(Field::Text(TextField::new("Duration", duration.as_str())));
        form.add_field(Field::Boolean(BooleanField::new("Primary", video.is_primary)));
        assert(form@ =~~= video_form(video@));
        form
    }

    /// Reads a video's completed form.
    pub fn from_video_str(s: &str) -> (r: Result<Form, FormError>)
        ensures
            form_result(r) == parse_form(video_kinds(), video_labels(), s@),
    {
        let kinds = vec![
            Kind::Choice,
            Kind::Text,
            Kind::OptionalMultilineText,
            Kind::Text,
            Kind::Text,
            Kind::Boolean,
        ];
        let names = vec!["Master", "Title", "Description", "Link", "Duration", "Primary"];
        assert(kinds@ =~= video_kinds());
        assert(names@.map_values(|n: &str| n@) =~= video_labels());
        Form::parse_with(&kinds, &names, s)
    }
}

fn value_or_error(form: &Form, name: &str) -> (r: Result<String, EditError>)
    ensures
        r matches Ok(v) ==> value_of(form@, name@) == Ok::<Seq<char>, FormErrorView>(v@),
        r matches Err(e) ==> value_of(form@, name@) matches Err(fe) && e@ == EditErrorView::Form(
            fe,
        ),
{
    match form.get_value(name) {
        Ok(v) => Ok(v),
        Err(e) => Err(EditError::Form(e)),
    }
}

/// The video a completed form describes, with the given identity.
pub fn video_from_form(id: i32, form: &Form, masters: &Vec<MasterVideo>) -> (r: Result<
    Video,
    EditError,
>)
    ensures
        video_result(r) == video_from_fields(id, form@, master_views(masters@)),
{
    let master_title = match value_or_error(form, "Master") {
        Ok(v) => v,
        Err(e) => return Err(e),
    };
    let mut titles: Vec<String> = Vec::new();
    let mut i: usize = 0;
    while i < masters.len()
        invariant
            i <= masters@.len(),
            titles@.len() == i,
            forall|k: int| 0 <= k < i ==> (#[trigger] titles@[k])@ == masters@[k].title@,
        decreases masters.len() - i,
    {
        titles.push(masters[i].title.clone());
        i = i + 1;
    }
    assert(views(titles@) =~= master_titles(master_views(masters@)));
    let k = match crate::text::find_str(&titles, master_title.as_str()) {
        Some(k) => k,
        None => return Err(EditError::NotInList(master_title, String::from_str("masters"))),
    };
    let title = match value_or_error(form, "Title") {
        Ok(v) => v,
        Err(e) => return Err(e),
    };
    let description = match value_or_error(form, "Description") {
        Ok(v) => v,
        Err(e) => return Err(e),
    };
    let link = match value_or_error(form, "Link") {
        Ok(v) => v,
        Err(e) => return Err(e),
    };
    let duration_input = match value_or_error(form, "Duration") {
        Ok(v) => v,
        Err(e) => return Err(e),
    };
    let primary = match value_or_error(form, "Primary") {
        Ok(v) => v,
        Err(e) => return Err(e),
    };
    let duration_ms = match parse_duration(duration_input.as_str()) {
        Some(ms) => ms,
        None => return Err(EditError::InvalidDuration(duration_input)),
    };
    proof {
        reveal_strlit("yes");
        assert("yes"@ =~= yes_word());
    }
    let is_primary = crate::fields::same_word_of(primary.as_str(), "yes");
    let description = if description.as_str().is_empty() {
        None
    } else {
        Some(description)
    };
    assert(master_views(masters@)[k as int] == masters@[k as int]@);
    Ok(
        Video {
            description,
            duration_ms,
            id,
            is_primary,
            link,
            master: masters[k].copied(),
            title,
        },
    )
}


/// Whole seconds read back from `HH:MM:SS` as they were written.
pub proof fn duration_round_trip(ms: nat)
    requires
        ms % 1000 == 0,
    ensures
        duration_ms(duration_text(ms)) == Some(ms),
{
    let h = crate::dates::padded(ms / 3600000, 2);
    let m = crate::dates::padded((ms / 60000) % 60, 2);
    let sec = crate::dates::padded((ms / 1000) % 60, 2);
    lemma_number_padded(ms / 3600000, 2);
    lemma_number_padded((ms / 60000) % 60, 2);
    lemma_number_padded((ms / 1000) % 60, 2);
    let parts = seq![h, m, sec];
    assert(crate::text::join(parts, seq![':']) =~= duration_text(ms)) by {
        let d = seq![':'];
        assert(parts.drop_first() =~= seq![m, sec]);
        assert(seq![m, sec].drop_first() =~= seq![sec]);
        assert(crate::text::join(seq![sec], d) == sec);
        assert(crate::text::join(seq![m, sec], d) == m + d + crate::text::join(seq![sec], d));
        assert(crate::text::join(parts, d) == h + d + crate::text::join(seq![m, sec], d));
    }
    assert forall|k: int| 0 <= k < parts.len() implies crate::text::clean_piece(
        #[trigger] parts[k],
        seq![':'],
    ) by {
        assert(all_digits(parts[k]));
        assert forall|i: int| 0 <= i < parts[k].len() implies #[trigger] parts[k][i] != ':' by {
            assert(is_digit(parts[k][i]));
        }
        crate::laws::lemma_clean_single(parts[k], ':');
    }
    crate::text::lemma_split_join(parts, seq![':']);
    assert forall|i: int| 0 <= i < sec.len() implies #[trigger] sec[i] != '.' by {
        assert(is_digit(sec[i]));
    }
    crate::laws::lemma_clean_single(sec, '.');
    crate::text::lemma_split_join(seq![sec], seq!['.']);
    assert(crate::text::join(seq![sec], seq!['.']) == sec);
    assert(split(sec, seq!['.']) == seq![sec]);
    assert(ms / 3600000 * 3600000 + (ms / 60000) % 60 * 60000 + (ms / 1000) % 60 * 1000 == ms)
        by (nonlinear_arith)
        requires
            ms % 1000 == 0,
    ;
}

} // verus!
