//! Rendering a field and reading the text back gives the same field.
use crate::fields::{
    after_label, block, flag_word, label, line_items, list_items,
    multiline_value, no_word, same_word, yes_word,
};
use crate::forms::{
    field_text, field_value, form_text, parse_field, parse_form, parse_prefix, section_delimiter,
    FieldView, Kind,
};
use crate::text::{
    clean_piece, contains, is_ws, join, lemma_join_push, lemma_split_join, lemma_trim_end_skip,
    lemma_trim_start_skip, match_at, split, strip_all, strip_once, trim, trim_each, trim_end, trim_start,
};
use crate::models::{category_text, Category};
use vstd::prelude::*;

verus! {

/// Neither starts nor ends with whitespace.
pub open spec fn trimmed(v: Seq<char>) -> bool {
    v.len() > 0 ==> !is_ws(v[0]) && !is_ws(v.last())
}

/// A field name that does not start with whitespace.
pub open spec fn good_name(n: Seq<char>) -> bool {
    n.len() > 0 && !is_ws(n[0])
}

pub open spec fn free_of(v: Seq<char>, c: char) -> bool {
    forall|i: int| 0 <= i < v.len() ==> #[trigger] v[i] != c
}

/// A list item that survives the list's text: non-empty, trimmed, and
/// without the separator.
pub open spec fn good_item(v: Seq<char>, c: char) -> bool {
    v.len() > 0 && trimmed(v) && free_of(v, c)
}

pub open spec fn good_items(vs: Seq<Seq<char>>, c: char) -> bool {
    forall|i: int| 0 <= i < vs.len() ==> good_item(#[trigger] vs[i], c)
}

/// A field whose values its text can carry, with no candidates pending.
pub open spec fn field_ok(f: FieldView) -> bool {
    &&& good_name(f.name)
    &&& f.choices.len() == 0
    &&& match f.kind {
        Kind::Text | Kind::Choice | Kind::MultilineText => f.value.len() > 0 && trimmed(f.value)
            && f.values.len() == 0 && !f.flag,
        Kind::OptionalMultilineText | Kind::OptionalChoice | Kind::OptionalText => trimmed(f.value) && f.values.len()
            == 0 && !f.flag,
        Kind::List => f.values.len() > 0 && good_items(f.values, ';') && f.value.len() == 0
            && !f.flag,
        Kind::OptionalList | Kind::OptionalChoiceList => good_items(f.values, ';') && f.value.len()
            == 0 && !f.flag,
        Kind::MultilineList => f.values.len() > 0 && good_items(f.values, '\n') && f.value.len()
            == 0 && !f.flag,
        Kind::OptionalMultilineList => good_items(f.values, '\n') && f.value.len() == 0 && !f.flag,
        Kind::Boolean => f.value.len() == 0 && f.values.len() == 0,
    }
}

proof fn lemma_strip_label(name: Seq<char>, mid: Seq<char>)
    ensures
        strip_once(label(name) + mid, label(name)) == mid,
        contains(label(name) + mid, name),
{
    let l = label(name);
    let s = l + mid;
    assert(s.subrange(0, l.len() as int) =~= l);
    assert(s.subrange(l.len() as int, s.len() as int) =~= mid);
    assert(s.subrange(0, name.len() as int) =~= name);
    assert(match_at(s, name, 0));
    assert(match_at(s, l, 0));
}

proof fn lemma_trim_wrap(w1: Seq<char>, v: Seq<char>, w2: Seq<char>)
    requires
        forall|i: int| 0 <= i < w1.len() ==> is_ws(#[trigger] w1[i]),
        forall|i: int| 0 <= i < w2.len() ==> is_ws(#[trigger] w2[i]),
        trimmed(v),
    ensures
        trim(w1 + v + w2) == v,
{
    let s = w1 + v + w2;
    assert forall|j: int| 0 <= j < w1.len() implies is_ws(#[trigger] s[j]) by {
        assert(s[j] == w1[j]);
    }
    lemma_trim_start_skip(s, w1.len() as int);
    let t = s.subrange(w1.len() as int, s.len() as int);
    assert(t =~= v + w2);
    if v.len() > 0 {
        assert(t[0] == v[0]);
        assert(trim_start(t) == t);
        assert forall|j: int| v.len() <= j < t.len() implies is_ws(#[trigger] t[j]) by {
            assert(t[j] == w2[j - v.len()]);
        }
        lemma_trim_end_skip(t, v.len() as int);
        assert(t.subrange(0, v.len() as int) =~= v);
        assert(trim_end(v) == v);
    } else {
        assert forall|j: int| 0 <= j < t.len() implies is_ws(#[trigger] t[j]) by {
            assert(t[j] == w2[j]);
        }
        lemma_trim_start_skip(t, t.len() as int);
        assert(t.subrange(t.len() as int, t.len() as int) =~= Seq::<char>::empty());
        assert(v =~= Seq::<char>::empty());
    }
}

/// All whitespace.
pub open spec fn blank(w: Seq<char>) -> bool {
    forall|i: int| 0 <= i < w.len() ==> is_ws(#[trigger] w[i])
}

/// A text that neither starts nor ends with whitespace is its own trim.
pub proof fn lemma_trim_plain(v: Seq<char>)
    requires
        trimmed(v),
    ensures
        trim(v) == v,
{
    lemma_trim_wrap(Seq::empty(), v, Seq::empty());
    assert(Seq::<char>::empty() + v + Seq::<char>::empty() =~= v);
}

/// After the label and a space or a line break, the value, whatever
/// whitespace follows it.
proof fn lemma_after_label(name: Seq<char>, c: char, v: Seq<char>, w: Seq<char>)
    requires
        good_name(name),
        is_ws(c),
        trimmed(v),
        blank(w),
    ensures
        after_label(name, label(name) + seq![c] + v + w) == v,
        contains(label(name) + seq![c] + v + w, name),
{
    let mid = seq![c] + v + w;
    assert(label(name) + seq![c] + v + w =~= label(name) + mid);
    lemma_strip_label(name, mid);
    lemma_trim_wrap(seq![c], v, w);
}

/// The bare label, with any whitespace after it, reads as an empty value.
proof fn lemma_bare_label_blank(name: Seq<char>, w: Seq<char>)
    requires
        good_name(name),
        blank(w),
    ensures
        after_label(name, label(name) + w) == Seq::<char>::empty(),
        contains(label(name) + w, name),
{
    lemma_strip_label(name, w);
    lemma_trim_wrap(Seq::empty(), Seq::empty(), w);
    assert(Seq::<char>::empty() + Seq::<char>::empty() + w =~= w);
}

/// A non-empty join of good items neither starts nor ends with whitespace.
proof fn lemma_join_trimmed(vs: Seq<Seq<char>>, c: char, d: Seq<char>)
    requires
        vs.len() > 0,
        good_items(vs, c),
    ensures
        join(vs, d).len() > 0,
        join(vs, d)[0] == vs[0][0],
        join(vs, d).last() == vs.last().last(),
        trimmed(join(vs, d)),
    decreases vs.len(),
{
    assert(good_item(vs[0], c));
    if vs.len() > 1 {
        let rest = vs.drop_first();
        assert forall|i: int| 0 <= i < rest.len() implies good_item(#[trigger] rest[i], c) by {
            assert(rest[i] == vs[i + 1]);
        }
        lemma_join_trimmed(rest, c, d);
        assert(vs.last() == rest.last());
    }
}

pub open spec fn spaced(vs: Seq<Seq<char>>) -> Seq<Seq<char>> {
    Seq::new(vs.len(), |i: int| if i == 0 { vs[0] } else { seq![' '] + vs[i] })
}

pub open spec fn all_spaced(vs: Seq<Seq<char>>) -> Seq<Seq<char>> {
    Seq::new(vs.len(), |i: int| seq![' '] + vs[i])
}

proof fn lemma_join_all_spaced(vs: Seq<Seq<char>>)
    requires
        vs.len() > 0,
    ensures
        join(all_spaced(vs), seq![';']) == seq![' '] + join(vs, seq![';', ' ']),
    decreases vs.len(),
{
    let a = all_spaced(vs);
    if vs.len() == 1 {
        assert(join(a, seq![';']) == a[0]);
    } else {
        let rest = vs.drop_first();
        lemma_join_all_spaced(rest);
        assert(a.drop_first() =~= all_spaced(rest));
        assert(join(a, seq![';']) == a[0] + seq![';'] + join(a.drop_first(), seq![';']));
        assert(join(vs, seq![';', ' ']) == vs[0] + seq![';', ' '] + join(rest, seq![';', ' ']));
        assert(join(a, seq![';']) =~= seq![' '] + join(vs, seq![';', ' ']));
    }
}

proof fn lemma_join_spaced(vs: Seq<Seq<char>>)
    requires
        vs.len() > 0,
    ensures
        join(vs, seq![';', ' ']) == join(spaced(vs), seq![';']),
{
    let sp = spaced(vs);
    if vs.len() > 1 {
        let rest = vs.drop_first();
        lemma_join_all_spaced(rest);
        assert(sp.drop_first() =~= all_spaced(rest));
        assert(join(sp, seq![';']) == sp[0] + seq![';'] + join(sp.drop_first(), seq![';']));
        assert(join(vs, seq![';', ' ']) == vs[0] + seq![';', ' '] + join(rest, seq![';', ' ']));
        assert(join(sp, seq![';']) =~= join(vs, seq![';', ' ']));
    }
}

proof fn lemma_clean_char(p: Seq<char>, c: char)
    requires
        free_of(p, c),
    ensures
        clean_piece(p, seq![c]),
{
    assert forall|m: int| 0 <= m < p.len() implies !match_at(p + seq![c], seq![c], m) by {
        if match_at(p + seq![c], seq![c], m) {
            assert((p + seq![c]).subrange(m, m + 1)[0] == c);
            assert((p + seq![c])[m] == p[m]);
        }
    }
}

/// The items of a list written with `; ` or `;` between them are the list.
proof fn lemma_list_items(vs: Seq<Seq<char>>)
    requires
        vs.len() > 0,
        good_items(vs, ';'),
    ensures
        list_items(join(vs, seq![';', ' '])) == vs,
        list_items(join(vs, seq![';'])) == vs,
{
    lemma_join_trimmed(vs, ';', seq![';', ' ']);
    lemma_join_trimmed(vs, ';', seq![';']);
    let sp = spaced(vs);
    lemma_join_spaced(vs);
    assert forall|k: int| 0 <= k < sp.len() implies clean_piece(#[trigger] sp[k], seq![';']) by {
        assert(good_item(vs[k], ';'));
        if k > 0 {
            assert forall|i: int| 0 <= i < sp[k].len() implies #[trigger] sp[k][i] != ';' by {
                if i > 0 {
                    assert(sp[k][i] == vs[k][i - 1]);
                }
            }
        }
        lemma_clean_char(sp[k], ';');
    }
    lemma_split_join(sp, seq![';']);
    assert forall|k: int| 0 <= k < sp.len() implies trim(#[trigger] sp[k]) == vs[k] by {
        assert(good_item(vs[k], ';'));
        if k == 0 {
            lemma_trim_wrap(Seq::empty(), vs[0], Seq::empty());
            assert(Seq::<char>::empty() + vs[0] + Seq::<char>::empty() =~= vs[0]);
        } else {
            lemma_trim_wrap(seq![' '], vs[k], Seq::empty());
            assert(seq![' '] + vs[k] + Seq::<char>::empty() =~= sp[k]);
        }
    }
    assert(trim_each(sp) =~= vs);
    assert forall|k: int| 0 <= k < vs.len() implies clean_piece(#[trigger] vs[k], seq![';']) by {
        assert(good_item(vs[k], ';'));
        lemma_clean_char(vs[k], ';');
    }
    lemma_split_join(vs, seq![';']);
    assert forall|k: int| 0 <= k < vs.len() implies trim(#[trigger] vs[k]) == vs[k] by {
        assert(good_item(vs[k], ';'));
        lemma_trim_wrap(Seq::empty(), vs[k], Seq::empty());
        assert(Seq::<char>::empty() + vs[k] + Seq::<char>::empty() =~= vs[k]);
    }
    assert(trim_each(vs) =~= vs);
}

proof fn lemma_line_items(vs: Seq<Seq<char>>)
    requires
        vs.len() > 0,
        good_items(vs, '\n'),
    ensures
        line_items(join(vs, seq!['\n'])) == vs,
{
    lemma_join_trimmed(vs, '\n', seq!['\n']);
    assert forall|k: int| 0 <= k < vs.len() implies clean_piece(#[trigger] vs[k], seq!['\n']) by {
        assert(good_item(vs[k], '\n'));
        lemma_clean_char(vs[k], '\n');
    }
    lemma_split_join(vs, seq!['\n']);
}

/// The bare label reads as an empty value.
proof fn lemma_bare_label(name: Seq<char>)
    requires
        good_name(name),
    ensures
        after_label(name, label(name)) == Seq::<char>::empty(),
        contains(label(name), name),
        trim(label(name)) == label(name),
{
    lemma_strip_label(name, Seq::empty());
    assert(label(name) + Seq::<char>::empty() =~= label(name));
    assert(trim(Seq::<char>::empty()) == Seq::<char>::empty());
    assert(label(name).last() == ':');
    assert(label(name)[0] == name[0]);
}

/// `Name: value` with a trimmed value is already trimmed.
proof fn lemma_inline_trimmed(name: Seq<char>, v: Seq<char>)
    requires
        good_name(name),
        v.len() > 0,
        trimmed(v),
    ensures
        trim(label(name) + seq![' '] + v) == label(name) + seq![' '] + v,
{
    let s = label(name) + seq![' '] + v;
    assert(s[0] == name[0]);
    assert(s.last() == v.last());
}

/// Reading back an unedited section gives the same field, whatever
/// whitespace follows the section.
#[verifier::rlimit(80)]
pub proof fn field_round_trip_blank(f: FieldView, w: Seq<char>)
    requires
        field_ok(f),
        blank(w),
    ensures
        parse_field(f.kind, f.name, field_text(f) + w) == Ok::<
            FieldView,
            crate::errors::FormErrorView,
        >(f),
{
    let n = f.name;
    assert(f.choices =~= Seq::<Seq<char>>::empty());
    match f.kind {
        Kind::Text => {
            assert(f.values =~= Seq::<Seq<char>>::empty());
            lemma_after_label(n, ' ', f.value, w);
        },
        Kind::Choice => {
            assert(f.values =~= Seq::<Seq<char>>::empty());
            lemma_inline_trimmed(n, f.value);
            lemma_after_label(n, ' ', f.value, w);
        },
        Kind::OptionalChoice => {
            assert(f.values =~= Seq::<Seq<char>>::empty());
            if f.value.len() > 0 {
                lemma_inline_trimmed(n, f.value);
                lemma_after_label(n, ' ', f.value, w);
            } else {
                lemma_bare_label(n);
                lemma_bare_label_blank(n, w);
                assert(f.value =~= Seq::<char>::empty());
            }
        },
        Kind::OptionalText => {
            assert(f.values =~= Seq::<Seq<char>>::empty());
            if f.value.len() > 0 {
                lemma_after_label(n, ' ', f.value, w);
            } else {
                lemma_bare_label_blank(n, w);
                assert(f.value =~= Seq::<char>::empty());
            }
        },
        Kind::MultilineText => {
            assert(f.values =~= Seq::<Seq<char>>::empty());
            let mid = seq!['\n'] + f.value + w;
            assert(block(n, f.value) + w =~= label(n) + mid);
            lemma_strip_label(n, mid);
            assert(mid.subrange(0, 1)[0] == '\n');
            assert(!match_at(mid, seq![':'], 0));
            assert(strip_all(mid, seq![':']) == mid);
            lemma_trim_wrap(seq!['\n'], f.value, w);
            assert(multiline_value(n, block(n, f.value) + w) == f.value);
        },
        Kind::OptionalMultilineText => {
            assert(f.values =~= Seq::<Seq<char>>::empty());
            assert(block(n, f.value) + w =~= label(n) + seq!['\n'] + f.value + w);
            lemma_after_label(n, '\n', f.value, w);
        },
        Kind::Boolean => {
            assert(f.values =~= Seq::<Seq<char>>::empty());
            assert(f.value =~= Seq::<char>::empty());
            let fw = flag_word(f.flag);
            lemma_after_label(n, ' ', fw, w);
            if f.flag {
                assert(same_word(fw, yes_word()));
            } else {
                assert(!same_word(fw, yes_word()));
                assert(same_word(fw, no_word()));
            }
        },
        Kind::List | Kind::OptionalList => {
            assert(f.value =~= Seq::<char>::empty());
            let j = join(f.values, seq![';', ' ']);
            assert(field_value(f) == j);
            if f.values.len() > 0 {
                lemma_join_trimmed(f.values, ';', seq![';', ' ']);
                lemma_after_label(n, ' ', j, w);
                lemma_list_items(f.values);
            } else {
                lemma_bare_label_blank(n, w);
                assert(f.values =~= Seq::<Seq<char>>::empty());
            }
        },
        Kind::OptionalChoiceList => {
            assert(f.value =~= Seq::<char>::empty());
            let j = join(f.values, seq![';']);
            assert(field_value(f) == j);
            if f.values.len() > 0 {
                lemma_join_trimmed(f.values, ';', seq![';']);
                lemma_inline_trimmed(n, j);
                lemma_after_label(n, ' ', j, w);
                lemma_list_items(f.values);
            } else {
                lemma_bare_label(n);
                lemma_bare_label_blank(n, w);
                assert(f.values =~= Seq::<Seq<char>>::empty());
            }
        },
        Kind::MultilineList | Kind::OptionalMultilineList => {
            assert(f.value =~= Seq::<char>::empty());
            let j = join(f.values, seq!['\n']);
            assert(field_value(f) == j);
            assert(block(n, j) + w =~= label(n) + seq!['\n'] + j + w);
            if f.values.len() > 0 {
                lemma_join_trimmed(f.values, '\n', seq!['\n']);
                lemma_after_label(n, '\n', j, w);
                lemma_line_items(f.values);
            } else {
                assert(f.values =~= Seq::<Seq<char>>::empty());
                assert(j =~= Seq::<char>::empty());
                lemma_after_label(n, '\n', j, w);
            }
        },
    }
}

/// Reading back an unedited section gives the same field.
pub proof fn field_round_trip(f: FieldView)
    requires
        field_ok(f),
    ensures
        parse_field(f.kind, f.name, field_text(f)) == Ok::<FieldView, crate::errors::FormErrorView>(
            f,
        ),
{
    field_round_trip_blank(f, Seq::empty());
    assert(field_text(f) + Seq::<char>::empty() =~= field_text(f));
}


/// Three dashes in a row, which would start a section break.
pub open spec fn dashes() -> Seq<char> {
    seq!['-', '-', '-']
}

/// The sections of a form's text: each field's text, all but the last
/// followed by a line break.
pub open spec fn newline_ended(texts: Seq<Seq<char>>) -> Seq<Seq<char>> {
    Seq::new(
        texts.len(),
        |i: int|
            if i + 1 < texts.len() {
                texts[i] + seq!['\n']
            } else {
                texts[i]
            },
    )
}

pub open spec fn field_texts(fields: Seq<FieldView>) -> Seq<Seq<char>> {
    Seq::new(fields.len(), |i: int| field_text(fields[i]))
}

proof fn lemma_join_newline(texts: Seq<Seq<char>>)
    requires
        texts.len() >= 1,
    ensures
        join(texts, seq!['\n', '-', '-', '-', '\n']) == join(newline_ended(texts), section_delimiter()),
    decreases texts.len(),
{
    let nl = newline_ended(texts);
    if texts.len() == 1 {
        assert(join(nl, section_delimiter()) == nl[0]);
    } else {
        let rest = texts.drop_first();
        lemma_join_newline(rest);
        assert(nl.drop_first() =~= newline_ended(rest));
        assert(join(nl, section_delimiter()) == nl[0] + section_delimiter() + join(
            nl.drop_first(),
            section_delimiter(),
        ));
        assert(join(texts, seq!['\n', '-', '-', '-', '\n']) == texts[0] + seq![
            '\n',
            '-',
            '-',
            '-',
            '\n',
        ] + join(rest, seq!['\n', '-', '-', '-', '\n']));
        assert(join(texts, seq!['\n', '-', '-', '-', '\n']) =~= join(nl, section_delimiter()));
    }
}

proof fn lemma_trim_end_concat(a: Seq<char>, b: Seq<char>)
    requires
        b.len() > 0,
        !is_ws(b[0]),
    ensures
        trim_end(a + b) == a + trim_end(b),
    decreases b.len(),
{
    let s = a + b;
    if is_ws(b.last()) {
        assert(b.len() >= 2);
        assert(s.last() == b.last());
        assert(s.drop_last() =~= a + b.drop_last());
        lemma_trim_end_concat(a, b.drop_last());
    } else {
        assert(s.last() == b.last());
    }
}

proof fn lemma_join_first(ps: Seq<Seq<char>>, d: Seq<char>)
    requires
        ps.len() > 0,
        ps[0].len() > 0,
    ensures
        join(ps, d).len() > 0,
        join(ps, d)[0] == ps[0][0],
{
}

/// What a field's text starts and ends with.
proof fn lemma_text_shape(f: FieldView)
    requires
        field_ok(f),
    ensures
        field_text(f).len() > 0,
        field_text(f)[0] == f.name[0],
        !is_ws(field_text(f).last()) || ((f.kind == Kind::OptionalMultilineText
            || f.kind == Kind::OptionalMultilineList) && field_text(f) == label(f.name) + seq!['\n']
            && f.value.len() == 0 && f.values.len() == 0),
{
    let n = f.name;
    match f.kind {
        Kind::Choice => {
            lemma_inline_trimmed(n, f.value);
        },
        Kind::OptionalChoice => {
            if f.value.len() > 0 {
                lemma_inline_trimmed(n, f.value);
            } else {
                lemma_bare_label(n);
            }
        },
        Kind::OptionalChoiceList => {
            let j = join(f.values, seq![';']);
            if f.values.len() > 0 {
                lemma_join_trimmed(f.values, ';', seq![';']);
                lemma_inline_trimmed(n, j);
            } else {
                assert(f.values =~= Seq::<Seq<char>>::empty());
                lemma_bare_label(n);
            }
        },
        Kind::List | Kind::OptionalList => {
            if f.values.len() > 0 {
                lemma_join_trimmed(f.values, ';', seq![';', ' ']);
            } else {
                assert(f.values =~= Seq::<Seq<char>>::empty());
            }
        },
        Kind::MultilineList | Kind::OptionalMultilineList => {
            let j = join(f.values, seq!['\n']);
            if f.values.len() > 0 {
                lemma_join_trimmed(f.values, '\n', seq!['\n']);
            } else {
                assert(f.values =~= Seq::<Seq<char>>::empty());
                assert(j =~= Seq::<char>::empty());
                assert(field_text(f) =~= label(n) + seq!['\n']);
            }
        },
        Kind::OptionalMultilineText => {
            if f.value.len() == 0 {
                assert(field_text(f) =~= label(n) + seq!['\n']);
            }
        },
        _ => {},
    }
}

/// The last section, trimmed at its end, reads as the field.
proof fn lemma_last_section(f: FieldView)
    requires
        field_ok(f),
    ensures
        parse_field(f.kind, f.name, trim_end(field_text(f))) == Ok::<
            FieldView,
            crate::errors::FormErrorView,
        >(f),
{
    lemma_text_shape(f);
    let t = field_text(f);
    if !is_ws(t.last()) {
        assert(trim_end(t) == t);
        field_round_trip(f);
    } else {
        let l = label(f.name);
        assert(t.drop_last() =~= l);
        assert(l.last() == ':');
        assert(trim_end(l) == l);
        assert(trim_end(t) == l);
        lemma_bare_label_blank(f.name, Seq::empty());
        assert(l + Seq::<char>::empty() =~= l);
        assert(f.choices =~= Seq::<Seq<char>>::empty());
        assert(f.values =~= Seq::<Seq<char>>::empty());
        assert(f.value =~= Seq::<char>::empty());
    }
}

proof fn lemma_clean_newline(t: Seq<char>)
    requires
        !contains(t, dashes()),
    ensures
        clean_piece(t + seq!['\n'], section_delimiter()),
{
    let p = t + seq!['\n'];
    let d = section_delimiter();
    assert forall|m: int| 0 <= m < p.len() implies !match_at(p + d, d, m) by {
        if match_at(p + d, d, m) {
            let q = p + d;
            assert(q.subrange(m, m + 4) == d);
            assert(q[m + 3] == '\n') by {
                assert(q.subrange(m, m + 4)[3] == d[3]);
            }
            if m + 3 <= t.len() {
                assert forall|k: int| 0 <= k < 3 implies t[m + k] == dashes()[k] by {
                    assert(q.subrange(m, m + 4)[k] == d[k]);
                    assert(q[m + k] == t[m + k]);
                }
                assert(t.subrange(m, m + 3) =~= dashes());
                assert(match_at(t, dashes(), m));
            } else {
                assert(m + 3 >= t.len() + 1);
                assert(q[m + 3] == d[m + 3 - p.len()]);
                assert(m + 3 - p.len() < 3);
            }
        }
    }
}

proof fn lemma_clean_last(t: Seq<char>)
    requires
        !contains(t, dashes()),
    ensures
        clean_piece(trim_end(t), section_delimiter()),
{
    crate::text::lemma_trim_end_idem(t);
    let u = trim_end(t);
    let d = section_delimiter();
    assert forall|m: int| 0 <= m < u.len() implies !match_at(u + d, d, m) by {
        if match_at(u + d, d, m) {
            let q = u + d;
            assert(q.subrange(m, m + 4) == d);
            assert(q[m + 3] == '\n') by {
                assert(q.subrange(m, m + 4)[3] == d[3]);
            }
            if m + 3 <= u.len() {
                assert forall|k: int| 0 <= k < 3 implies t[m + k] == dashes()[k] by {
                    assert(q.subrange(m, m + 4)[k] == d[k]);
                    assert(q[m + k] == u[m + k]);
                    assert(u[m + k] == t[m + k]);
                }
                assert(t.subrange(m, m + 3) =~= dashes());
                assert(match_at(t, dashes(), m));
            } else {
                assert(q[m + 3] == d[m + 3 - u.len()]);
            }
        }
    }
}

/// The fields of a form that its text can carry, in the order and with
/// the kinds and names of the form's schema.
pub open spec fn form_ok(kinds: Seq<Kind>, names: Seq<Seq<char>>, fields: Seq<FieldView>) -> bool {
    &&& fields.len() > 0
    &&& kinds.len() == fields.len()
    &&& names.len() == fields.len()
    &&& forall|i: int|
        0 <= i < fields.len() ==> {
            &&& (#[trigger] fields[i]).kind == kinds[i]
            &&& fields[i].name == names[i]
            &&& field_ok(fields[i])
            &&& !contains(field_text(fields[i]), dashes())
        }
}

proof fn lemma_prefix_ok(
    kinds: Seq<Kind>,
    names: Seq<Seq<char>>,
    pieces: Seq<Seq<char>>,
    fields: Seq<FieldView>,
    i: nat,
)
    requires
        form_ok(kinds, names, fields),
        pieces.len() == fields.len(),
        i <= fields.len(),
        forall|k: int|
            0 <= k < fields.len() ==> parse_field(kinds[k], names[k], #[trigger] pieces[k]) == Ok::<
                FieldView,
                crate::errors::FormErrorView,
            >(fields[k]),
    ensures
        parse_prefix(kinds, names, pieces, i) == Ok::<
            Seq<FieldView>,
            crate::errors::FormErrorView,
        >(fields.take(i as int)),
    decreases i,
{
    if i == 0 {
        assert(fields.take(0) =~= Seq::<FieldView>::empty());
    } else {
        lemma_prefix_ok(kinds, names, pieces, fields, (i - 1) as nat);
        assert(parse_field(kinds[i - 1], names[i - 1], pieces[i - 1]) == Ok::<
            FieldView,
            crate::errors::FormErrorView,
        >(fields[i - 1]));
        assert(fields.take(i - 1).push(fields[i - 1]) =~= fields.take(i as int));
    }
}

/// Rendering a form and reading the unedited text back, with the form's
/// schema, gives the same fields.
pub proof fn form_round_trip(kinds: Seq<Kind>, names: Seq<Seq<char>>, fields: Seq<FieldView>)
    requires
        form_ok(kinds, names, fields),
    ensures
        parse_form(kinds, names, form_text(fields)) == Ok::<
            Seq<FieldView>,
            crate::errors::FormErrorView,
        >(fields),
{
    let len = fields.len() as int;
    let texts = field_texts(fields);
    let d = section_delimiter();
    let nl = newline_ended(texts);
    assert(Seq::new(fields.len(), |i: int| field_text(fields[i])) =~= texts);
    lemma_join_newline(texts);
    let last = trim_end(texts[len - 1]);
    let pieces = nl.update(len - 1, last);
    assert(field_ok(fields[len - 1]));
    lemma_text_shape(fields[len - 1]);
    assert(field_ok(fields[0]));
    lemma_text_shape(fields[0]);
    assert(texts[len - 1] == field_text(fields[len - 1]));
    assert(texts[0] == field_text(fields[0]));
    // the whole text, trimmed, is the sections joined
    if len == 1 {
        assert(join(nl, d) == nl[0]);
        assert(nl[0] == texts[0]);
        assert(trim_start(texts[0]) == texts[0]);
        assert(join(pieces, d) == pieces[0]);
    } else {
        lemma_join_push(nl, d, len - 1);
        assert(nl.take(len) =~= nl);
        let a = join(nl.take(len - 1), d) + d;
        assert(nl[len - 1] == texts[len - 1]);
        assert(join(nl, d) == a + texts[len - 1]);
        lemma_trim_end_concat(a, texts[len - 1]);
        lemma_join_push(pieces, d, len - 1);
        assert(pieces.take(len) =~= pieces);
        assert(pieces.take(len - 1) =~= nl.take(len - 1));
        assert(join(pieces, d) =~= a + last);
        assert(nl[0] == texts[0] + seq!['\n']);
        lemma_join_first(nl, d);
        assert(trim_start(join(nl, d)) == join(nl, d));
    }
    assert(form_text(fields) == join(pieces, d));
    // every section is clean, so the split gives the sections back
    assert forall|k: int| 0 <= k < pieces.len() implies clean_piece(#[trigger] pieces[k], d) by {
        assert(texts[k] == field_text(fields[k]));
        if k < len - 1 {
            lemma_clean_newline(texts[k]);
        } else {
            lemma_clean_last(texts[k]);
        }
    }
    lemma_split_join(pieces, d);
    assert forall|k: int| 0 <= k < fields.len() implies parse_field(
        kinds[k],
        names[k],
        #[trigger] pieces[k],
    ) == Ok::<FieldView, crate::errors::FormErrorView>(fields[k]) by {
        assert(field_ok(fields[k]));
        assert(texts[k] == field_text(fields[k]));
        if k < len - 1 {
            field_round_trip_blank(fields[k], seq!['\n']);
        } else {
            lemma_last_section(fields[k]);
        }
    }
    lemma_prefix_ok(kinds, names, pieces, fields, fields.len());
    assert(fields.take(len) =~= fields);
}


proof fn lemma_no_dashes(p: Seq<char>, v: Seq<char>)
    requires
        free_of(p, '-'),
        !contains(v, dashes()),
    ensures
        !contains(p + v, dashes()),
{
    let s = p + v;
    assert forall|m: int| !match_at(s, dashes(), m) by {
        if match_at(s, dashes(), m) {
            assert(s.subrange(m, m + 3)[0] == '-');
            if m < p.len() {
                assert(s[m] == p[m]);
            } else {
                assert(v.subrange(m - p.len(), m - p.len() + 3) =~= s.subrange(m, m + 3));
                assert(match_at(v, dashes(), m - p.len()));
            }
        }
    }
}

/// A network's name and description that its form can carry: each one
/// non-empty and trimmed, without three dashes in a row.
pub open spec fn network_ok(n: crate::models::NewsNetworkView) -> bool {
    &&& n.name.len() > 0 && trimmed(n.name) && !contains(n.name, dashes())
    &&& n.description.len() > 0 && trimmed(n.description) && !contains(n.description, dashes())
}

/// A network's form, rendered and read back unedited, rebuilds the same
/// network.
pub proof fn network_round_trip(n: crate::models::NewsNetworkView)
    requires
        network_ok(n),
    ensures
        parse_form(
            crate::news::network_kinds(),
            crate::news::network_labels(),
            form_text(crate::news::network_form(n)),
        ) == Ok::<Seq<FieldView>, crate::errors::FormErrorView>(crate::news::network_form(n)),
        crate::news::network_from_fields(n.id, crate::news::network_form(n)) == Ok::<
            crate::models::NewsNetworkView,
            crate::errors::EditErrorView,
        >(n),
{
    reveal_strlit("Name");
    reveal_strlit("Description");
    let fs = crate::news::network_form(n);
    let name_l = label("Name"@) + seq![' '];
    let desc_l = label("Description"@) + seq!['\n'];
    assert(free_of(name_l, '-'));
    assert(free_of(desc_l, '-'));
    assert(field_text(fs[0]) =~= name_l + n.name);
    assert(field_text(fs[1]) =~= desc_l + n.description);
    lemma_no_dashes(name_l, n.name);
    lemma_no_dashes(desc_l, n.description);
    assert(form_ok(crate::news::network_kinds(), crate::news::network_labels(), fs));
    form_round_trip(crate::news::network_kinds(), crate::news::network_labels(), fs);
    assert("Name"@ != "Description"@);
    crate::forms::lemma_field_index(fs, "Name"@, 0);
    crate::forms::lemma_field_index(fs, "Description"@, 1);
    assert(field_value(fs[0]) == n.name);
    assert(field_value(fs[1]) == n.description);
}


/// A one-line value a form can carry: non-empty, trimmed, and without three
/// dashes in a row.
pub open spec fn carried(v: Seq<char>) -> bool {
    v.len() > 0 && trimmed(v) && !contains(v, dashes())
}

/// A video whose form can carry it: its master's title, its title and link
/// carried, its description absent or carried, its duration in whole
/// seconds.
pub open spec fn video_ok(v: crate::models::VideoView) -> bool {
    &&& carried(v.master.title)
    &&& carried(v.title)
    &&& carried(v.link)
    &&& (v.description matches Some(d) ==> carried(d))
    &&& v.duration_ms % 1000 == 0
}

proof fn lemma_duration_text_plain(ms: nat)
    ensures
        forall|i: int|
            0 <= i < crate::videos::duration_text(ms).len() ==> {
                let c = #[trigger] crate::videos::duration_text(ms)[i];
                crate::videos::is_digit(c) || c == ':'
            },
        crate::videos::duration_text(ms).len() > 0,
        crate::videos::is_digit(crate::videos::duration_text(ms)[0]),
        crate::videos::is_digit(crate::videos::duration_text(ms).last()),
{
    let h = crate::dates::padded(ms / 3600000, 2);
    let m = crate::dates::padded((ms / 60000) % 60, 2);
    let sec = crate::dates::padded((ms / 1000) % 60, 2);
    crate::videos::lemma_number_padded(ms / 3600000, 2);
    crate::videos::lemma_number_padded((ms / 60000) % 60, 2);
    crate::videos::lemma_number_padded((ms / 1000) % 60, 2);
    let t = crate::videos::duration_text(ms);
    assert(t == h + seq![':'] + m + seq![':'] + sec);
    assert forall|i: int| 0 <= i < t.len() implies {
        let c = #[trigger] t[i];
        crate::videos::is_digit(c) || c == ':'
    } by {
        if i < h.len() {
            assert(t[i] == h[i]);
        } else if i == h.len() {
        } else if i < h.len() + 1 + m.len() {
            assert(t[i] == m[i - h.len() - 1]);
        } else if i == h.len() + 1 + m.len() {
        } else {
            assert(t[i] == sec[i - h.len() - 2 - m.len()]);
        }
    }
    assert(t[0] == h[0]);
    assert(t.last() == sec.last());
}

/// A video's form, rendered and read back unedited, rebuilds the same video
/// when its master is among the given master videos first under its title.
#[verifier::rlimit(80)]
pub proof fn video_round_trip(v: crate::models::VideoView)
    requires
        video_ok(v),
    ensures
        parse_form(
            crate::videos::video_kinds(),
            crate::videos::video_labels(),
            form_text(crate::videos::video_form(v)),
        ) == Ok::<Seq<FieldView>, crate::errors::FormErrorView>(crate::videos::video_form(v)),
        crate::videos::video_from_fields(v.id, crate::videos::video_form(v), seq![v.master])
            == Ok::<crate::models::VideoView, crate::errors::EditErrorView>(v),
{
    reveal_strlit("Master");
    reveal_strlit("Title");
    reveal_strlit("Description");
    reveal_strlit("Link");
    reveal_strlit("Duration");
    reveal_strlit("Primary");
    let fs = crate::videos::video_form(v);
    let desc = crate::news::text_or_empty(v.description);
    let dur = crate::videos::duration_text(v.duration_ms as nat);
    lemma_duration_text_plain(v.duration_ms as nat);
    assert(!contains(dur, dashes())) by {
        assert forall|m: int| !match_at(dur, dashes(), m) by {
            if match_at(dur, dashes(), m) {
                assert(dur.subrange(m, m + 3)[0] == '-');
                assert(dur[m] == dur.subrange(m, m + 3)[0]);
            }
        }
    }
    assert(trimmed(dur));
    let l0 = label("Master"@) + seq![' '];
    let l1 = label("Title"@) + seq![' '];
    let l2 = label("Description"@) + seq!['\n'];
    let l3 = label("Link"@) + seq![' '];
    let l4 = label("Duration"@) + seq![' '];
    assert(free_of(l0, '-') && free_of(l1, '-') && free_of(l2, '-') && free_of(l3, '-') && free_of(
        l4,
        '-',
    ));
    lemma_inline_trimmed("Master"@, v.master.title);
    assert(field_text(fs[0]) =~= l0 + v.master.title);
    assert(field_text(fs[1]) =~= l1 + v.title);
    assert(field_text(fs[2]) =~= l2 + desc);
    assert(field_text(fs[3]) =~= l3 + v.link);
    assert(field_text(fs[4]) =~= l4 + dur);
    lemma_no_dashes(l0, v.master.title);
    lemma_no_dashes(l1, v.title);
    if desc.len() > 0 {
        lemma_no_dashes(l2, desc);
    } else {
        assert(desc =~= Seq::<char>::empty());
        lemma_no_dashes(l2, Seq::empty());
        assert(l2 + Seq::<char>::empty() =~= l2);
        assert(!contains(Seq::<char>::empty(), dashes()));
    }
    lemma_no_dashes(l3, v.link);
    lemma_no_dashes(l4, dur);
    let fw = flag_word(v.is_primary);
    let l5 = label("Primary"@) + seq![' '] + fw;
    assert(field_text(fs[5]) == l5);
    assert(free_of(l5, '-'));
    lemma_no_dashes(l5, Seq::empty());
    assert(l5 + Seq::<char>::empty() =~= l5);
    assert(!contains(Seq::<char>::empty(), dashes()));
    assert(form_ok(crate::videos::video_kinds(), crate::videos::video_labels(), fs));
    form_round_trip(crate::videos::video_kinds(), crate::videos::video_labels(), fs);
    // the lookups
    crate::forms::lemma_field_index(fs, "Master"@, 0);
    crate::forms::lemma_field_index(fs, "Title"@, 1);
    crate::forms::lemma_field_index(fs, "Description"@, 2);
    crate::forms::lemma_field_index(fs, "Link"@, 3);
    crate::forms::lemma_field_index(fs, "Duration"@, 4);
    crate::forms::lemma_field_index(fs, "Primary"@, 5);
    crate::videos::duration_round_trip(v.duration_ms as nat);
    let masters = seq![v.master];
    assert(crate::videos::master_titles(masters) =~= seq![v.master.title]);
    crate::text::lemma_first_index(seq![v.master.title], v.master.title, 0);
    if v.is_primary {
        assert(same_word(fw, yes_word()));
    } else {
        assert(!same_word(fw, yes_word()));
    }
    assert(field_value(fs[2]) == desc);
}


/// An affiliate whose form can carry it: its network's name, its name,
/// description and region all carried.
pub open spec fn affiliate_ok(a: crate::models::NewsAffiliateView) -> bool {
    carried(a.network.name) && carried(a.name) && carried(a.description) && carried(a.region)
}

/// An affiliate's form, rendered and read back unedited, rebuilds the same
/// affiliate when its network is first under its name among the networks.
#[verifier::rlimit(60)]
pub proof fn affiliate_round_trip(a: crate::models::NewsAffiliateView)
    requires
        affiliate_ok(a),
    ensures
        parse_form(
            crate::news::affiliate_kinds(),
            crate::news::affiliate_labels(),
            form_text(crate::news::affiliate_form(a)),
        ) == Ok::<Seq<FieldView>, crate::errors::FormErrorView>(crate::news::affiliate_form(a)),
        crate::news::affiliate_from_fields(a.id, crate::news::affiliate_form(a), seq![a.network])
            == Ok::<crate::models::NewsAffiliateView, crate::errors::EditErrorView>(a),
{
    reveal_strlit("Network");
    reveal_strlit("Name");
    reveal_strlit("Description");
    reveal_strlit("Region");
    let fs = crate::news::affiliate_form(a);
    let l0 = label("Network"@) + seq![' '];
    let l1 = label("Name"@) + seq![' '];
    let l2 = label("Description"@) + seq!['\n'];
    let l3 = label("Region"@) + seq![' '];
    assert(free_of(l0, '-') && free_of(l1, '-') && free_of(l2, '-') && free_of(l3, '-'));
    lemma_inline_trimmed("Network"@, a.network.name);
    assert(field_text(fs[0]) =~= l0 + a.network.name);
    assert(field_text(fs[1]) =~= l1 + a.name);
    assert(field_text(fs[2]) =~= l2 + a.description);
    assert(field_text(fs[3]) =~= l3 + a.region);
    lemma_no_dashes(l0, a.network.name);
    lemma_no_dashes(l1, a.name);
    lemma_no_dashes(l2, a.description);
    lemma_no_dashes(l3, a.region);
    assert(form_ok(crate::news::affiliate_kinds(), crate::news::affiliate_labels(), fs));
    form_round_trip(crate::news::affiliate_kinds(), crate::news::affiliate_labels(), fs);
    crate::forms::lemma_field_index(fs, "Network"@, 0);
    crate::forms::lemma_field_index(fs, "Name"@, 1);
    crate::forms::lemma_field_index(fs, "Description"@, 2);
    crate::forms::lemma_field_index(fs, "Region"@, 3);
    assert(crate::news::network_names(seq![a.network]) =~= seq![a.network.name]);
    crate::text::lemma_first_index(seq![a.network.name], a.network.name, 0);
}


proof fn lemma_category_text(c: crate::models::Category)
    ensures
        crate::models::category_of(crate::models::category_text(c)) == Some(c),
{
    reveal_strlit("amateur-footage");
    reveal_strlit("compilation");
    reveal_strlit("documentary");
    reveal_strlit("news");
    reveal_strlit("professional-footage");
    reveal_strlit("survivor-account");
    assert(category_text(Category::AmateurFootage).len() == 15);
    assert(category_text(Category::Compilation).len() == 11);
    assert(category_text(Category::Compilation)[0] == 'c');
    assert(category_text(Category::Documentary).len() == 11);
    assert(category_text(Category::Documentary)[0] == 'd');
    assert(category_text(Category::News).len() == 4);
    assert(category_text(Category::ProfessionalFootage).len() == 20);
    assert(category_text(Category::SurvivorAccount).len() == 16);
}

proof fn lemma_categories_back(cs: Seq<crate::models::Category>)
    ensures
        crate::masters::categories_from(crate::masters::category_texts(cs)) == Ok::<
            Seq<crate::models::Category>,
            crate::errors::EditErrorView,
        >(cs),
    decreases cs.len(),
{
    let ts = crate::masters::category_texts(cs);
    if cs.len() > 0 {
        lemma_categories_back(cs.drop_last());
        assert(ts.drop_last() =~= crate::masters::category_texts(cs.drop_last()));
        lemma_category_text(cs.last());
        assert(ts.last() == category_text(cs.last()));
        assert(cs.drop_last().push(cs.last()) =~= cs);
    } else {
        assert(ts =~= Seq::<Seq<char>>::empty());
        assert(cs =~= Seq::<Category>::empty());
    }
}

/// A master video's form, read back unedited, gives the same fields; and
/// whenever the record can be rebuilt from them, it has the same identity,
/// title, description, links, categories and NIST file paths.
#[verifier::rlimit(100)]
pub proof fn master_round_trip_parts(
    m: crate::models::MasterVideoView,
    broadcasts: Seq<crate::models::NewsBroadcastView>,
    known: Seq<crate::models::PersonView>,
)
    requires
        form_ok(
            crate::masters::master_kinds(),
            crate::masters::master_labels(),
            crate::masters::master_form(m),
        ),
    ensures
        parse_form(
            crate::masters::master_kinds(),
            crate::masters::master_labels(),
            form_text(crate::masters::master_form(m)),
        ) == Ok::<Seq<FieldView>, crate::errors::FormErrorView>(crate::masters::master_form(m)),
        crate::masters::master_from_fields(m.id, crate::masters::master_form(m), broadcasts, known)
            matches Ok(r) ==> {
            &&& r.id == m.id
            &&& r.title == m.title
            &&& r.description == m.description
            &&& r.links == m.links
            &&& r.categories == m.categories
            &&& crate::masters::paths(r.nist_files) == crate::masters::paths(m.nist_files)
            &&& m.date is None ==> r.date is None
            &&& (m.nist_notes matches Some(n) && n.len() > 0 || m.nist_notes is None) ==> r.nist_notes
                == m.nist_notes
        },
{
    form_round_trip(
        crate::masters::master_kinds(),
        crate::masters::master_labels(),
        crate::masters::master_form(m),
    );
    reveal_strlit("News Broadcasts");
    reveal_strlit("Title");
    reveal_strlit("Categories");
    reveal_strlit("Date");
    reveal_strlit("Description");
    reveal_strlit("Links");
    reveal_strlit("Timestamps");
    reveal_strlit("NIST Notes");
    reveal_strlit("Eyewitnesses");
    reveal_strlit("Fire");
    reveal_strlit("Police");
    reveal_strlit("Port Authority");
    reveal_strlit("Reporters");
    reveal_strlit("Survivors");
    reveal_strlit("Victims");
    reveal_strlit("Videographers");
    reveal_strlit("NIST Files");
    let fs = crate::masters::master_form(m);
    let names = crate::masters::master_labels();
    assert forall|i: int| 0 <= i < fs.len() implies (#[trigger] fs[i]).name == names[i] by {}
    assert(names[1] == "Title"@);
    assert(names[2] == "Categories"@);
    assert(names[4] == "Description"@);
    assert(names[5] == "Links"@);
    assert(names[16] == "NIST Files"@);
    assert(names[0].len() == 15);
    assert(names[3].len() == 4);
    assert(names[6][0] == 'T' && names[6].len() == 10);
    assert(names[7][5] == 'N' && names[7].len() == 10);
    assert(names[16][5] == 'F' && names[16][0] == 'N');
    assert(names[2][0] == 'C');
    assert(names[8].len() == 12);
    assert(names[9].len() == 4);
    assert(names[10].len() == 6);
    assert(names[11].len() == 14);
    assert(names[12].len() == 9);
    assert(names[13].len() == 9);
    assert(names[14].len() == 7);
    assert(names[15].len() == 13);
    assert(names[1][0] == 'T' && names[5][0] == 'L');
    crate::forms::lemma_field_index(fs, "Title"@, 1);
    crate::forms::lemma_field_index(fs, "Categories"@, 2);
    crate::forms::lemma_field_index(fs, "Description"@, 4);
    crate::forms::lemma_field_index(fs, "Links"@, 5);
    crate::forms::lemma_field_index(fs, "NIST Files"@, 16);
    assert(names[3] == "Date"@ && names[7] == "NIST Notes"@);
    crate::forms::lemma_field_index(fs, "Date"@, 3);
    crate::forms::lemma_field_index(fs, "NIST Notes"@, 7);
    lemma_categories_back(m.categories);
    let files = crate::masters::paths(m.nist_files);
    assert(fs[16].values == files);
    let back = Seq::new(files.len(), |i: int| (files[i], 0u64));
    assert(crate::masters::paths(back) =~= files);
}


/// A NIST video's form, rendered and read back unedited, gives back its
/// missing flag and its notes, absent notes as empty text.
pub proof fn nist_video_round_trip(missing: bool, notes: Option<Seq<char>>)
    requires
        notes matches Some(n) ==> carried(n),
    ensures
        parse_form(
            crate::nist::nist_video_kinds(),
            crate::nist::nist_video_labels(),
            form_text(crate::nist::nist_video_form(missing, notes)),
        ) == Ok::<Seq<FieldView>, crate::errors::FormErrorView>(
            crate::nist::nist_video_form(missing, notes),
        ),
        crate::forms::flag_of(crate::nist::nist_video_form(missing, notes), "Missing?"@) == Ok::<
            bool,
            crate::errors::FormErrorView,
        >(missing),
        crate::forms::value_of(crate::nist::nist_video_form(missing, notes), "Additional Notes"@)
            == Ok::<Seq<char>, crate::errors::FormErrorView>(crate::news::text_or_empty(notes)),
{
    reveal_strlit("Missing?");
    reveal_strlit("Additional Notes");
    let fs = crate::nist::nist_video_form(missing, notes);
    let text = crate::news::text_or_empty(notes);
    let l0 = label("Missing?"@) + seq![' '] + flag_word(missing);
    let l1 = label("Additional Notes"@) + seq!['\n'];
    assert(free_of(l0, '-') && free_of(l1, '-'));
    assert(field_text(fs[0]) == l0);
    assert(field_text(fs[1]) =~= l1 + text);
    lemma_no_dashes(l0, Seq::empty());
    assert(l0 + Seq::<char>::empty() =~= l0);
    assert(!contains(Seq::<char>::empty(), dashes()));
    if text.len() > 0 {
        lemma_no_dashes(l1, text);
    } else {
        assert(text =~= Seq::<char>::empty());
        lemma_no_dashes(l1, Seq::empty());
        assert(l1 + Seq::<char>::empty() =~= l1);
    }
    assert(form_ok(crate::nist::nist_video_kinds(), crate::nist::nist_video_labels(), fs));
    form_round_trip(crate::nist::nist_video_kinds(), crate::nist::nist_video_labels(), fs);
    crate::forms::lemma_field_index(fs, "Missing?"@, 0);
    crate::forms::lemma_field_index(fs, "Additional Notes"@, 1);
}

proof fn lemma_join_no_dashes(vs: Seq<Seq<char>>, d: Seq<char>)
    requires
        vs.len() > 0,
        d.len() > 0,
        free_of(d, '-'),
        forall|i: int| 0 <= i < vs.len() ==> !contains(#[trigger] vs[i], dashes()),
    ensures
        !contains(join(vs, d), dashes()),
    decreases vs.len(),
{
    if vs.len() > 1 {
        let rest = vs.drop_first();
        assert forall|i: int| 0 <= i < rest.len() implies !contains(#[trigger] rest[i], dashes()) by {
            assert(rest[i] == vs[i + 1]);
        }
        lemma_join_no_dashes(rest, d);
        let a = vs[0];
        let b = d + join(rest, d);
        assert(!contains(a, dashes()));
        lemma_no_dashes(d, join(rest, d));
        let s = a + b;
        assert(join(vs, d) == a + d + join(rest, d));
        assert(a + d + join(rest, d) =~= s);
        assert forall|m: int| !match_at(s, dashes(), m) by {
            if match_at(s, dashes(), m) {
                assert(s.subrange(m, m + 3)[0] == '-');
                if m + 3 <= a.len() {
                    assert(a.subrange(m, m + 3) =~= s.subrange(m, m + 3));
                    assert(match_at(a, dashes(), m));
                } else if m >= a.len() {
                    assert(b.subrange(m - a.len(), m - a.len() + 3) =~= s.subrange(m, m + 3));
                    assert(match_at(b, dashes(), m - a.len()));
                } else {
                    let k = a.len() - m;
                    assert(s.subrange(m, m + 3)[k] == '-');
                    assert(s[a.len() as int] == d[0]);
                }
            }
        }
    }
}

/// A tape's release files that its form can carry: each path one trimmed,
/// non-empty line without three dashes in a row.
pub open spec fn tape_ok(files: Seq<(Seq<char>, u64)>) -> bool {
    forall|i: int|
        0 <= i < files.len() ==> good_item(#[trigger] files[i].0, '\n') && !contains(
            files[i].0,
            dashes(),
        )
}

/// A tape's form, rendered and read back unedited, gives back its release
/// file paths, each with size 0.
pub proof fn tape_round_trip(files: Seq<(Seq<char>, u64)>)
    requires
        tape_ok(files),
    ensures
        parse_form(
            crate::nist::tape_kinds(),
            crate::nist::tape_labels(),
            form_text(crate::nist::tape_form(files)),
        ) == Ok::<Seq<FieldView>, crate::errors::FormErrorView>(crate::nist::tape_form(files)),
        crate::nist::release_files_of(crate::nist::tape_form(files)) == Ok::<
            Seq<(Seq<char>, u64)>,
            crate::errors::FormErrorView,
        >(Seq::new(files.len(), |i: int| (files[i].0, 0u64))),
{
    reveal_strlit("NIST Files");
    let fs = crate::nist::tape_form(files);
    let ps = crate::masters::paths(files);
    assert forall|i: int| 0 <= i < ps.len() implies good_item(#[trigger] ps[i], '\n') by {
        assert(ps[i] == files[i].0);
    }
    let j = join(ps, seq!['\n']);
    let l0 = label("NIST Files"@) + seq!['\n'];
    assert(free_of(l0, '-'));
    assert(field_value(fs[0]) == j);
    assert(field_text(fs[0]) =~= l0 + j);
    if ps.len() > 0 {
        assert forall|i: int| 0 <= i < ps.len() implies !contains(#[trigger] ps[i], dashes()) by {
            assert(ps[i] == files[i].0);
        }
        lemma_join_no_dashes(ps, seq!['\n']);
        lemma_no_dashes(l0, j);
    } else {
        assert(ps =~= Seq::<Seq<char>>::empty());
        assert(j =~= Seq::<char>::empty());
        lemma_no_dashes(l0, Seq::empty());
        assert(l0 + Seq::<char>::empty() =~= l0);
        assert(!contains(Seq::<char>::empty(), dashes()));
    }
    assert(form_ok(crate::nist::tape_kinds(), crate::nist::tape_labels(), fs));
    form_round_trip(crate::nist::tape_kinds(), crate::nist::tape_labels(), fs);
    crate::forms::lemma_field_index(fs, "NIST Files"@, 0);
    assert(fs[0].values == ps);
    assert(Seq::new(ps.len(), |i: int| (ps[i], 0u64)) =~= Seq::new(
        files.len(),
        |i: int| (files[i].0, 0u64),
    ));
}


/// A broadcast's form, read back unedited, gives the same fields; and
/// whenever the broadcast can be rebuilt from them, with its own network or
/// affiliate as the only candidate, it has the same identity, description,
/// network and affiliate.
#[verifier::rlimit(60)]
pub proof fn broadcast_round_trip_parts(b: crate::models::NewsBroadcastView)
    requires
        form_ok(
            crate::news::broadcast_kinds(),
            crate::news::broadcast_labels(),
            crate::news::broadcast_form(b),
        ),
        (b.news_network is Some) != (b.news_affiliate is Some),
        b.news_network matches Some(n) ==> n.name.len() > 0,
        b.news_affiliate matches Some(a) ==> a.name.len() > 0,
        b.description matches Some(d) ==> d.len() > 0,
    ensures
        parse_form(
            crate::news::broadcast_kinds(),
            crate::news::broadcast_labels(),
            form_text(crate::news::broadcast_form(b)),
        ) == Ok::<Seq<FieldView>, crate::errors::FormErrorView>(crate::news::broadcast_form(b)),
        ({
            let networks = match b.news_network {
                Some(n) => seq![n],
                None => Seq::empty(),
            };
            let affiliates = match b.news_affiliate {
                Some(a) => seq![a],
                None => Seq::empty(),
            };
            crate::news::broadcast_from_fields(b.id, crate::news::broadcast_form(b), networks, affiliates)
                matches Ok(r) ==> {
                &&& r.id == b.id
                &&& r.description == b.description
                &&& r.news_network == b.news_network
                &&& r.news_affiliate == b.news_affiliate
            }
        }),
{
    form_round_trip(
        crate::news::broadcast_kinds(),
        crate::news::broadcast_labels(),
        crate::news::broadcast_form(b),
    );
    reveal_strlit("Network");
    reveal_strlit("Affiliate");
    reveal_strlit("Date");
    reveal_strlit("Description");
    let fs = crate::news::broadcast_form(b);
    crate::forms::lemma_field_index(fs, "Network"@, 0);
    crate::forms::lemma_field_index(fs, "Affiliate"@, 1);
    crate::forms::lemma_field_index(fs, "Date"@, 2);
    crate::forms::lemma_field_index(fs, "Description"@, 3);
    match b.news_network {
        Some(n) => {
            assert(crate::news::network_names(seq![n]) =~= seq![n.name]);
            crate::text::lemma_first_index(seq![n.name], n.name, 0);
        },
        None => {},
    }
    match b.news_affiliate {
        Some(a) => {
            assert(crate::news::affiliate_names(seq![a]) =~= seq![a.name]);
            crate::text::lemma_first_index(seq![a.name], a.name, 0);
        },
        None => {},
    }
}


/// A choice list with no value and candidates offered reads exactly as its
/// label, the marker line, and then the candidates, one per line, in order.
pub proof fn placeholder_text_law(name: Seq<char>, choices: Seq<Seq<char>>)
    requires
        good_name(name),
        choices.len() > 0,
        good_items(choices, '\n'),
    ensures
        field_text(crate::forms::multi(Kind::OptionalChoiceList, name, Seq::empty(), choices)) == label(name)
            + seq!['\n'] + crate::fields::choose_or_delete_marker() + seq!['\n'] + join(
            choices,
            seq!['\n'],
        ),
{
    let f = crate::forms::multi(Kind::OptionalChoiceList, name, Seq::empty(), choices);
    assert(field_value(f) =~= Seq::<char>::empty());
    crate::laws::lemma_lines_join(choices);
    lemma_join_trimmed(choices, '\n', seq!['\n']);
    let j = join(choices, seq!['\n']);
    let x = label(name) + seq!['\n'] + crate::fields::choose_or_delete_marker() + seq!['\n'] + j;
    assert(x[0] == name[0]);
    assert(x.last() == j.last());
    assert(label(name) + seq!['\n'] + crate::fields::choose_or_delete_marker() + seq!['\n']
        + crate::fields::lines(choices) =~= Seq::<char>::empty() + x + seq!['\n']);
    lemma_trim_wrap(Seq::empty(), x, seq!['\n']);
}

} // verus!
