//! How a locale tag is read does not depend on its spelling: underscores
//! for dashes, surrounding blanks and letter case all resolve alike.
use vstd::prelude::*;

use crate::alias::{
    all_alpha, candidates_spec, dash_pieces, is_ascii_alpha, parse_locale_spec, resolve_locale_spec, tag_pieces, LocaleView,
};
use crate::text::{
    ascii_lower, ascii_upper, eq_ignore_case, is_ws, lemma_trim_idempotent, lower_seq, replace_all, trim, trim_end, trim_start,
    upper_seq,
};

verus! {

/// `_` read as `-`.
pub open spec fn dash_for_underscore(c: char) -> char {
    if c == '_' {
        '-'
    } else {
        c
    }
}

proof fn lemma_replace_underscore(s: Seq<char>)
    ensures
        replace_all(s, "_"@, "-"@) == s.map_values(|c: char| dash_for_underscore(c)),
    decreases s.len(),
{
    reveal_strlit("_");
    reveal_strlit("-");
    let m = s.map_values(|c: char| dash_for_underscore(c));
    if s.len() == 0 {
        assert(m =~= s);
    } else {
        lemma_replace_underscore(s.drop_first());
        let rest = s.drop_first().map_values(|c: char| dash_for_underscore(c));
        if s[0] == '_' {
            assert(s.take(1) =~= "_"@);
            assert(s.skip(1) =~= s.drop_first());
            assert(m =~= "-"@ + rest);
        } else {
            assert(s.take(1)[0] != "_"@[0]);
            assert(m =~= seq![s[0]] + rest);
        }
    }
}

proof fn lemma_trim_start_map(s: Seq<char>, f: spec_fn(char) -> char)
    requires
        forall|c: char| #[trigger] is_ws(f(c)) == is_ws(c),
    ensures
        trim_start(s.map_values(f)) == trim_start(s).map_values(f),
    decreases s.len(),
{
    let m = s.map_values(f);
    if s.len() > 0 {
        assert(m[0] == f(s[0]));
        if is_ws(s[0]) {
            assert(m.drop_first() =~= s.drop_first().map_values(f));
            lemma_trim_start_map(s.drop_first(), f);
        }
    } else {
        assert(m =~= s.map_values(f));
    }
}

proof fn lemma_trim_end_map(s: Seq<char>, f: spec_fn(char) -> char)
    requires
        forall|c: char| #[trigger] is_ws(f(c)) == is_ws(c),
    ensures
        trim_end(s.map_values(f)) == trim_end(s).map_values(f),
    decreases s.len(),
{
    let m = s.map_values(f);
    if s.len() > 0 {
        assert(m.last() == f(s.last()));
        if is_ws(s.last()) {
            assert(m.drop_last() =~= s.drop_last().map_values(f));
            lemma_trim_end_map(s.drop_last(), f);
        }
    }
}

proof fn lemma_trim_map(s: Seq<char>, f: spec_fn(char) -> char)
    requires
        forall|c: char| #[trigger] is_ws(f(c)) == is_ws(c),
    ensures
        trim(s.map_values(f)) == trim(s).map_values(f),
{
    lemma_trim_start_map(s, f);
    lemma_trim_end_map(trim_start(s), f);
}

pub open spec fn map_pieces(ps: Seq<Seq<char>>, f: spec_fn(char) -> char) -> Seq<Seq<char>> {
    ps.map_values(|p: Seq<char>| p.map_values(f))
}

proof fn lemma_dash_map(cur: Seq<char>, rest: Seq<char>, f: spec_fn(char) -> char)
    requires
        forall|c: char| (#[trigger] f(c) == '-') == (c == '-'),
    ensures
        dash_pieces(cur.map_values(f), rest.map_values(f)) == map_pieces(dash_pieces(cur, rest), f),
    decreases rest.len(),
{
    let mr = rest.map_values(f);
    let mc = cur.map_values(f);
    if rest.len() == 0 {
        assert(mr =~= Seq::<char>::empty());
        if cur.len() > 0 {
            assert(map_pieces(seq![cur], f) =~= seq![mc]);
        } else {
            assert(map_pieces(Seq::<Seq<char>>::empty(), f) =~= Seq::<Seq<char>>::empty());
        }
    } else {
        assert(mr[0] == f(rest[0]));
        assert(mr.drop_first() =~= rest.drop_first().map_values(f));
        let head: Seq<Seq<char>> = if cur.len() > 0 { seq![cur] } else { Seq::empty() };
        if rest[0] == '-' {
            let e = Seq::<char>::empty();
            assert(e.map_values(f) =~= e);
            lemma_dash_map(e, rest.drop_first(), f);
            assert(map_pieces(head, f) =~= (if mc.len() > 0 { seq![mc] } else { Seq::<Seq<char>>::empty() }));
            assert(map_pieces(head + dash_pieces(e, rest.drop_first()), f) =~= map_pieces(head, f) + map_pieces(
                dash_pieces(e, rest.drop_first()),
                f,
            ));
        } else {
            assert(cur.push(rest[0]).map_values(f) =~= mc.push(f(rest[0])));
            lemma_dash_map(cur.push(rest[0]), rest.drop_first(), f);
        }
    }
}

/// Reading `_` as `-` first changes no piece of a tag.
proof fn lemma_pieces_underscore(tag: Seq<char>)
    ensures
        tag_pieces(replace_all(tag, "_"@, "-"@)) == tag_pieces(tag),
{
    let f = |c: char| dash_for_underscore(c);
    assert forall|c: char| #[trigger] is_ws(f(c)) == is_ws(c) by {}
    lemma_replace_underscore(tag);
    let u = tag.map_values(f);
    lemma_trim_map(tag, f);
    let t = trim(tag);
    lemma_replace_underscore(trim(u));
    lemma_replace_underscore(t);
    assert(trim(u).map_values(f) =~= t.map_values(f).map_values(f));
    assert(t.map_values(f).map_values(f) =~= t.map_values(f));
}

/// Trimming first changes no piece of a tag.
proof fn lemma_pieces_trim(tag: Seq<char>)
    ensures
        tag_pieces(trim(tag)) == tag_pieces(tag),
{
    lemma_trim_idempotent(tag);
}

/// Mapping the letters' case maps each piece of a tag alike.
proof fn lemma_pieces_case(tag: Seq<char>, f: spec_fn(char) -> char)
    requires
        forall|c: char| #[trigger] is_ws(f(c)) == is_ws(c),
        forall|c: char| (#[trigger] f(c) == '-') == (c == '-'),
        forall|c: char| #[trigger] dash_for_underscore(f(c)) == f(dash_for_underscore(c)),
    ensures
        tag_pieces(tag.map_values(f)) == map_pieces(tag_pieces(tag), f),
{
    let g = |c: char| dash_for_underscore(c);
    let t = trim(tag);
    lemma_trim_map(tag, f);
    lemma_replace_underscore(t.map_values(f));
    lemma_replace_underscore(t);
    assert(t.map_values(f).map_values(g) =~= t.map_values(g).map_values(f));
    lemma_dash_map(Seq::empty(), t.map_values(g), f);
    assert(Seq::<char>::empty().map_values(f) =~= Seq::<char>::empty());
}

pub open spec fn case_preserving(f: spec_fn(char) -> char) -> bool {
    &&& forall|c: char| #[trigger] ascii_lower(f(c)) == ascii_lower(c)
    &&& forall|c: char| #[trigger] ascii_upper(f(c)) == ascii_upper(c)
    &&& forall|c: char| #[trigger] is_ascii_alpha(f(c)) == is_ascii_alpha(c)
}

/// A piece mapped letter by letter keeps its length, its being alphabetic,
/// and its lower and upper case forms.
proof fn lemma_piece_case(p: Seq<char>, f: spec_fn(char) -> char)
    requires
        case_preserving(f),
    ensures
        p.map_values(f).len() == p.len(),
        all_alpha(p.map_values(f)) == all_alpha(p),
        lower_seq(p.map_values(f)) == lower_seq(p),
        upper_seq(p.map_values(f)) == upper_seq(p),
{
    let q = p.map_values(f);
    if all_alpha(p) {
        assert forall|k: int| 0 <= k < q.len() implies is_ascii_alpha(#[trigger] q[k]) by {
            assert(q[k] == f(p[k]));
        }
    }
    if all_alpha(q) {
        assert forall|k: int| 0 <= k < p.len() implies is_ascii_alpha(#[trigger] p[k]) by {
            assert(q[k] == f(p[k]));
        }
    }
    assert(lower_seq(q) =~= lower_seq(p));
    assert(upper_seq(q) =~= upper_seq(p));
}

pub open spec fn wants_cyrillic(v: LocaleView) -> bool {
    v.script matches Some(s) && eq_ignore_case(s, "cyrl"@)
}

/// The candidates depend on the language, the region and whether the script
/// is Cyrillic.
proof fn lemma_candidates_depend(v1: LocaleView, v2: LocaleView)
    requires
        v1.language == v2.language,
        v1.region == v2.region,
        wants_cyrillic(v1) == wants_cyrillic(v2),
    ensures
        candidates_spec(v1) == candidates_spec(v2),
{
}

/// Two readings of a tag whose pieces differ only in letter case, in a way that
/// keeps each letter's lower and upper case, resolve alike.
proof fn lemma_view_case(p1: Seq<Seq<char>>, f: spec_fn(char) -> char, tag1: Seq<char>, tag2: Seq<char>)
    requires
        case_preserving(f),
        tag_pieces(tag1) == p1,
        tag_pieces(tag2) == map_pieces(p1, f),
    ensures
        candidates_spec(parse_locale_spec(tag1)) == candidates_spec(parse_locale_spec(tag2)),
{
    let p2 = map_pieces(p1, f);
    let v1 = parse_locale_spec(tag1);
    let v2 = parse_locale_spec(tag2);
    if p1.len() > 0 {
        lemma_piece_case(p1[0], f);
        assert(p2[0] == p1[0].map_values(f));
        if p1.len() > 1 {
            lemma_piece_case(p1[1], f);
            assert(p2[1] == p1[1].map_values(f));
            assert(p1.drop_first()[0] == p1[1] && p2.drop_first()[0] == p2[1]);
        }
        if p1.len() > 2 {
            lemma_piece_case(p1[2], f);
            assert(p2[2] == p1[2].map_values(f));
            assert(p1.drop_first().drop_first()[0] == p1[2] && p2.drop_first().drop_first()[0] == p2[2]);
            assert(p1.drop_first()[1] == p1[2] && p2.drop_first()[1] == p2[2]);
        }
        assert(v1.language == v2.language);
        assert(v1.region == v2.region);
        assert(wants_cyrillic(v1) == wants_cyrillic(v2));
    }
    lemma_candidates_depend(v1, v2);
}

proof fn lemma_resolve_case(tag: Seq<char>, f: spec_fn(char) -> char)
    requires
        forall|c: char| #[trigger] is_ws(f(c)) == is_ws(c),
        forall|c: char| (#[trigger] f(c) == '-') == (c == '-'),
        forall|c: char| #[trigger] dash_for_underscore(f(c)) == f(dash_for_underscore(c)),
        case_preserving(f),
    ensures
        resolve_locale_spec(tag.map_values(f)) == resolve_locale_spec(tag),
{
    lemma_pieces_case(tag, f);
    lemma_view_case(tag_pieces(tag), f, tag, tag.map_values(f));
}

/// A locale tag resolves the same whether its pieces are joined by `_` or
/// `-`, whether blanks surround it, and whatever the case of its letters:
/// `"PT_br"` resolves as `"pt-BR"` does.
pub proof fn law_locale_tag_spelling_is_irrelevant(tag: Seq<char>)
    ensures
        resolve_locale_spec(replace_all(tag, "_"@, "-"@)) == resolve_locale_spec(tag),
        resolve_locale_spec(trim(tag)) == resolve_locale_spec(tag),
        resolve_locale_spec(lower_seq(tag)) == resolve_locale_spec(tag),
        resolve_locale_spec(upper_seq(tag)) == resolve_locale_spec(tag),
{
    lemma_pieces_underscore(tag);
    lemma_pieces_trim(tag);
    let lo = |c: char| ascii_lower(c);
    let up = |c: char| ascii_upper(c);
    assert forall|c: char| #[trigger] is_ws(lo(c)) == is_ws(c) by {}
    assert forall|c: char| (#[trigger] lo(c) == '-') == (c == '-') by {}
    assert forall|c: char| #[trigger] dash_for_underscore(lo(c)) == lo(dash_for_underscore(c)) by {}
    assert forall|c: char| #[trigger] ascii_lower(lo(c)) == ascii_lower(c) by {}
    assert forall|c: char| #[trigger] ascii_upper(lo(c)) == ascii_upper(c) by {}
    assert forall|c: char| #[trigger] is_ascii_alpha(lo(c)) == is_ascii_alpha(c) by {}
    assert forall|c: char| #[trigger] is_ws(up(c)) == is_ws(c) by {}
    assert forall|c: char| (#[trigger] up(c) == '-') == (c == '-') by {}
    assert forall|c: char| #[trigger] dash_for_underscore(up(c)) == up(dash_for_underscore(c)) by {}
    assert forall|c: char| #[trigger] ascii_lower(up(c)) == ascii_lower(c) by {}
    assert forall|c: char| #[trigger] ascii_upper(up(c)) == ascii_upper(c) by {}
    assert forall|c: char| #[trigger] is_ascii_alpha(up(c)) == is_ascii_alpha(c) by {}
    lemma_resolve_case(tag, lo);
    lemma_resolve_case(tag, up);
    assert(lower_seq(tag) =~= tag.map_values(lo));
    assert(upper_seq(tag) =~= tag.map_values(up));
}

} // verus!

