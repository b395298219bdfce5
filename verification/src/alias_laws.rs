//! A generated alias needs no cleaning: it is accepted as it is, and what
//! saving it writes reads back as the same alias.
use vstd::prelude::*;

use crate::alias::{
    adjective_words, all_alpha, combine_spec, fruit_words, generated_for, is_ascii_alpha, law_saved_alias_reads_back,
    data_locale, persisted_spec, save_spec, template_for, validate_spec, MAX_ALIAS_LEN,
};
use crate::text::{is_ws, lemma_trim_fixed, replace_all, trim};

verus! {

/// A word of the lists: a few ASCII letters.
pub open spec fn word_ok(w: Seq<char>) -> bool {
    0 < w.len() <= 12 && all_alpha(w)
}

proof fn lemma_adjectives_ok()
    ensures
        forall|i: int| 0 <= i < adjective_words().len() ==> word_ok(#[trigger] adjective_words()[i]),
{
    reveal_strlit("Adorable");
    assert(word_ok(adjective_words()[0]));
    reveal_strlit("Beautiful");
    assert(word_ok(adjective_words()[1]));
    reveal_strlit("Big");
    assert(word_ok(adjective_words()[2]));
    reveal_strlit("Bright");
    assert(word_ok(adjective_words()[3]));
    reveal_strlit("Clean");
    assert(word_ok(adjective_words()[4]));
    reveal_strlit("Clever");
    assert(word_ok(adjective_words()[5]));
    reveal_strlit("Cool");
    assert(word_ok(adjective_words()[6]));
    reveal_strlit("Cute");
    assert(word_ok(adjective_words()[7]));
    reveal_strlit("Cunning");
    assert(word_ok(adjective_words()[8]));
    reveal_strlit("Determined");
    assert(word_ok(adjective_words()[9]));
    reveal_strlit("Energetic");
    assert(word_ok(adjective_words()[10]));
    reveal_strlit("Efficient");
    assert(word_ok(adjective_words()[11]));
    reveal_strlit("Fantastic");
    assert(word_ok(adjective_words()[12]));
    reveal_strlit("Fast");
    assert(word_ok(adjective_words()[13]));
    reveal_strlit("Fine");
    assert(word_ok(adjective_words()[14]));
    reveal_strlit("Fresh");
    assert(word_ok(adjective_words()[15]));
    reveal_strlit("Good");
    assert(word_ok(adjective_words()[16]));
    reveal_strlit("Gorgeous");
    assert(word_ok(adjective_words()[17]));
    reveal_strlit("Great");
    assert(word_ok(adjective_words()[18]));
    reveal_strlit("Handsome");
    assert(word_ok(adjective_words()[19]));
    reveal_strlit("Hot");
    assert(word_ok(adjective_words()[20]));
    reveal_strlit("Kind");
    assert(word_ok(adjective_words()[21]));
    reveal_strlit("Lovely");
    assert(word_ok(adjective_words()[22]));
    reveal_strlit("Mystic");
    assert(word_ok(adjective_words()[23]));
    reveal_strlit("Neat");
    assert(word_ok(adjective_words()[24]));
    reveal_strlit("Nice");
    assert(word_ok(adjective_words()[25]));
    reveal_strlit("Patient");
    assert(word_ok(adjective_words()[26]));
    reveal_strlit("Pretty");
    assert(word_ok(adjective_words()[27]));
    reveal_strlit("Powerful");
    assert(word_ok(adjective_words()[28]));
    reveal_strlit("Rich");
    assert(word_ok(adjective_words()[29]));
    reveal_strlit("Secret");
    assert(word_ok(adjective_words()[30]));
    reveal_strlit("Smart");
    assert(word_ok(adjective_words()[31]));
    reveal_strlit("Solid");
    assert(word_ok(adjective_words()[32]));
    reveal_strlit("Special");
    assert(word_ok(adjective_words()[33]));
    reveal_strlit("Strategic");
    assert(word_ok(adjective_words()[34]));
    reveal_strlit("Strong");
    assert(word_ok(adjective_words()[35]));
    reveal_strlit("Tidy");
    assert(word_ok(adjective_words()[36]));
    reveal_strlit("Wise");
    assert(word_ok(adjective_words()[37]));
}

proof fn lemma_fruits_ok()
    ensures
        forall|i: int| 0 <= i < fruit_words().len() ==> word_ok(#[trigger] fruit_words()[i]),
{
    reveal_strlit("Apple");
    assert(word_ok(fruit_words()[0]));
    reveal_strlit("Avocado");
    assert(word_ok(fruit_words()[1]));
    reveal_strlit("Banana");
    assert(word_ok(fruit_words()[2]));
    reveal_strlit("Blackberry");
    assert(word_ok(fruit_words()[3]));
    reveal_strlit("Blueberry");
    assert(word_ok(fruit_words()[4]));
    reveal_strlit("Broccoli");
    assert(word_ok(fruit_words()[5]));
    reveal_strlit("Carrot");
    assert(word_ok(fruit_words()[6]));
    reveal_strlit("Cherry");
    assert(word_ok(fruit_words()[7]));
    reveal_strlit("Coconut");
    assert(word_ok(fruit_words()[8]));
    reveal_strlit("Grape");
    assert(word_ok(fruit_words()[9]));
    reveal_strlit("Lemon");
    assert(word_ok(fruit_words()[10]));
    reveal_strlit("Lettuce");
    assert(word_ok(fruit_words()[11]));
    reveal_strlit("Mango");
    assert(word_ok(fruit_words()[12]));
    reveal_strlit("Melon");
    assert(word_ok(fruit_words()[13]));
    reveal_strlit("Mushroom");
    assert(word_ok(fruit_words()[14]));
    reveal_strlit("Onion");
    assert(word_ok(fruit_words()[15]));
    reveal_strlit("Orange");
    assert(word_ok(fruit_words()[16]));
    reveal_strlit("Papaya");
    assert(word_ok(fruit_words()[17]));
    reveal_strlit("Peach");
    assert(word_ok(fruit_words()[18]));
    reveal_strlit("Pear");
    assert(word_ok(fruit_words()[19]));
    reveal_strlit("Pineapple");
    assert(word_ok(fruit_words()[20]));
    reveal_strlit("Potato");
    assert(word_ok(fruit_words()[21]));
    reveal_strlit("Pumpkin");
    assert(word_ok(fruit_words()[22]));
    reveal_strlit("Raspberry");
    assert(word_ok(fruit_words()[23]));
    reveal_strlit("Strawberry");
    assert(word_ok(fruit_words()[24]));
    reveal_strlit("Tomato");
    assert(word_ok(fruit_words()[25]));
}

pub open spec fn no_brace(s: Seq<char>) -> bool {
    forall|k: int| 0 <= k < s.len() ==> #[trigger] s[k] != '{'
}

/// No occurrence of `pat` can start at `k` of `s`, judged by its first two
/// characters.
pub open spec fn clear_at(s: Seq<char>, k: int, pat: Seq<char>) -> bool {
    s[k] != pat[0] || (k + 1 < s.len() && s[k + 1] != pat[1])
}

proof fn lemma_replace_plain_prefix(s: Seq<char>, r: Seq<char>, pat: Seq<char>, rep: Seq<char>)
    requires
        pat.len() > 1,
        forall|k: int| 0 <= k < s.len() ==> #[trigger] clear_at(s, k, pat),
    ensures
        replace_all(s + r, pat, rep) == s + replace_all(r, pat, rep),
    decreases s.len(),
{
    let t = s + r;
    if s.len() == 0 {
        assert(t =~= r);
    } else {
        assert(clear_at(s, 0, pat));
        if t.len() >= pat.len() {
            let h = t.take(pat.len() as int);
            if s[0] == pat[0] {
                assert(h[1] == s[1]);
            } else {
                assert(h[0] == s[0]);
            }
            assert(h != pat);
            let s1 = s.drop_first();
            assert(t.drop_first() =~= s1 + r);
            assert forall|k: int| 0 <= k < s1.len() implies #[trigger] clear_at(s1, k, pat) by {
                assert(clear_at(s, k + 1, pat));
            }
            lemma_replace_plain_prefix(s1, r, pat, rep);
            assert(seq![t[0]] + (s1 + replace_all(r, pat, rep)) =~= s + replace_all(r, pat, rep));
        } else {
            assert(r.len() < pat.len());
        }
    }
}

proof fn lemma_replace_at_start(r: Seq<char>, pat: Seq<char>, rep: Seq<char>)
    requires
        pat.len() > 0,
    ensures
        replace_all(pat + r, pat, rep) == rep + replace_all(r, pat, rep),
{
    let t = pat + r;
    assert(t.take(pat.len() as int) =~= pat);
    assert(t.skip(pat.len() as int) =~= r);
}

proof fn lemma_plain_clear(s: Seq<char>, pat: Seq<char>)
    requires
        no_brace(s),
        pat.len() > 1,
        pat[0] == '{',
    ensures
        forall|k: int| 0 <= k < s.len() ==> #[trigger] clear_at(s, k, pat),
{
    assert forall|k: int| 0 <= k < s.len() implies #[trigger] clear_at(s, k, pat) by {
        assert(s[k] != '{');
    }
}

proof fn lemma_no_brace_concat(a: Seq<char>, b: Seq<char>)
    requires
        no_brace(a),
        no_brace(b),
    ensures
        no_brace(a + b),
{
    assert forall|k: int| 0 <= k < (a + b).len() implies #[trigger] (a + b)[k] != '{' by {
        if k < a.len() {
            assert((a + b)[k] == a[k]);
        } else {
            assert((a + b)[k] == b[k - a.len()]);
        }
    }
}

proof fn lemma_combine_adjective_first(sep: Seq<char>, a: Seq<char>, f: Seq<char>)
    requires
        no_brace(sep),
        no_brace(a),
    ensures
        combine_spec("{adjective}"@ + sep + "{fruit}"@, a, f) == a + sep + f,
{
    reveal_strlit("{adjective}");
    reveal_strlit("{fruit}");
    let pa = "{adjective}"@;
    let pf = "{fruit}"@;
    let e = Seq::<char>::empty();
    assert(pa + sep + pf =~= pa + (sep + pf));
    lemma_replace_at_start(sep + pf, pa, a);
    lemma_plain_clear(sep, pa);
    lemma_replace_plain_prefix(sep, pf, pa, a);
    assert(replace_all(pf, pa, a) == pf);
    lemma_no_brace_concat(a, sep);
    lemma_plain_clear(a + sep, pf);
    assert(a + (sep + pf) =~= (a + sep) + pf);
    lemma_replace_plain_prefix(a + sep, pf, pf, f);
    assert(pf + e =~= pf);
    lemma_replace_at_start(e, pf, f);
    assert(replace_all(e, pf, f) == e);
    assert(f + e =~= f);
}

proof fn lemma_combine_fruit_first(sep: Seq<char>, a: Seq<char>, f: Seq<char>)
    requires
        no_brace(sep),
        no_brace(a),
    ensures
        combine_spec("{fruit}"@ + sep + "{adjective}"@, a, f) == f + sep + a,
{
    reveal_strlit("{adjective}");
    reveal_strlit("{fruit}");
    let pa = "{adjective}"@;
    let pf = "{fruit}"@;
    let e = Seq::<char>::empty();
    let pre = pf + sep;
    assert forall|k: int| 0 <= k < pre.len() implies #[trigger] clear_at(pre, k, pa) by {
        if k >= pf.len() {
            assert(pre[k] == sep[k - pf.len()]);
        } else if k == 0 {
            assert(pre[1] == 'f');
        } else {
            assert(pre[k] == pf[k]);
        }
    }
    assert(pa + e =~= pa);
    lemma_replace_plain_prefix(pre, pa, pa, a);
    lemma_replace_at_start(e, pa, a);
    assert(replace_all(e, pa, a) == e);
    assert(pre + (a + e) =~= pf + (sep + a));
    lemma_replace_at_start(sep + a, pf, f);
    lemma_no_brace_concat(sep, a);
    lemma_plain_clear(sep + a, pf);
    lemma_replace_plain_prefix(sep + a, e, pf, f);
    assert(sep + a + e =~= sep + a);
    assert(f + (sep + a) =~= f + sep + a);
}

/// A generated alias: an adjective and a fruit around a separator that holds
/// at most six characters.
proof fn lemma_generated_shape(id: Seq<char>, a: Seq<char>, f: Seq<char>)
    requires
        word_ok(a),
        word_ok(f),
    ensures
        ({
            let x = combine_spec(template_for(id), a, f);
            &&& 0 < x.len() <= 30
            &&& is_ascii_alpha(x[0])
            &&& is_ascii_alpha(x.last())
        }),
{
    reveal_strlit("{adjective}");
    reveal_strlit("{fruit}");
    reveal_strlit("{adjective}的{fruit}");
    reveal_strlit("{fruit} {adjective}");
    reveal_strlit("{fruit} yang {adjective}");
    reveal_strlit("{adjective} {fruit}");
    reveal_strlit(" ");
    reveal_strlit("的");
    reveal_strlit(" yang ");
    assert(no_brace(a));
    assert(no_brace(f));
    let pa = "{adjective}"@;
    let pf = "{fruit}"@;
    let t = template_for(id);
    if t == "{adjective}的{fruit}"@ {
        assert(t =~= pa + "的"@ + pf);
        lemma_combine_adjective_first("的"@, a, f);
        assert((a + "的"@ + f)[0] == a[0]);
        assert((a + "的"@ + f).last() == f.last());
    } else if t == "{fruit} {adjective}"@ {
        assert(t =~= pf + " "@ + pa);
        lemma_combine_fruit_first(" "@, a, f);
        assert((f + " "@ + a)[0] == f[0]);
        assert((f + " "@ + a).last() == a.last());
    } else if t == "{fruit} yang {adjective}"@ {
        assert(t =~= pf + " yang "@ + pa);
        lemma_combine_fruit_first(" yang "@, a, f);
        assert((f + " yang "@ + a)[0] == f[0]);
        assert((f + " yang "@ + a).last() == a.last());
    } else {
        assert(t == "{adjective} {fruit}"@);
        assert(t =~= pa + " "@ + pf);
        lemma_combine_adjective_first(" "@, a, f);
        assert((a + " "@ + f)[0] == a[0]);
        assert((a + " "@ + f).last() == f.last());
    }
}

/// A generated alias is accepted as it is, and what saving it writes reads
/// back as the same alias. So loading a newly generated alias again gives the
/// same string, and after a regeneration the next load gives the new alias.
pub proof fn law_generated_alias_reloads(id: Seq<char>, x: Seq<char>)
    requires
        generated_for(id, x),
    ensures
        validate_spec(x) == Ok::<Seq<char>, Seq<char>>(x),
        save_spec(x) == Ok::<Seq<char>, Seq<char>>(x + "\n"@),
        persisted_spec(Some(x + "\n"@)) == Some(x),
{
    let (i, j) = choose|i: int, j: int|
        0 <= i < adjective_words().len() && 0 <= j < fruit_words().len() && x == combine_spec(
            template_for(data_locale(id)),
            #[trigger] adjective_words()[i],
            #[trigger] fruit_words()[j],
        );
    lemma_adjectives_ok();
    lemma_fruits_ok();
    let a = adjective_words()[i];
    let f = fruit_words()[j];
    assert(word_ok(a));
    assert(word_ok(f));
    lemma_generated_shape(data_locale(id), a, f);
    lemma_trim_fixed(x);
    assert(trim(x).len() <= MAX_ALIAS_LEN);
    law_saved_alias_reads_back(x);
}

/// A regenerated alias replaces any alias that is not one the locale could
/// have generated (a name the user set, say) with a different one.
pub proof fn law_regenerated_alias_differs_from_a_set_one(id: Seq<char>, previous: Seq<char>, alias: Seq<char>)
    requires
        generated_for(id, alias),
        !generated_for(id, previous),
    ensures
        alias != previous,
{
}

/// No adjective starts with `O`.
proof fn lemma_no_adjective_starts_with_o()
    ensures
        forall|i: int| 0 <= i < adjective_words().len() ==> (#[trigger] adjective_words()[i])[0] != 'O',
{
    reveal_strlit("Adorable");
    assert(adjective_words()[0][0] != 'O');
    reveal_strlit("Beautiful");
    assert(adjective_words()[1][0] != 'O');
    reveal_strlit("Big");
    assert(adjective_words()[2][0] != 'O');
    reveal_strlit("Bright");
    assert(adjective_words()[3][0] != 'O');
    reveal_strlit("Clean");
    assert(adjective_words()[4][0] != 'O');
    reveal_strlit("Clever");
    assert(adjective_words()[5][0] != 'O');
    reveal_strlit("Cool");
    assert(adjective_words()[6][0] != 'O');
    reveal_strlit("Cute");
    assert(adjective_words()[7][0] != 'O');
    reveal_strlit("Cunning");
    assert(adjective_words()[8][0] != 'O');
    reveal_strlit("Determined");
    assert(adjective_words()[9][0] != 'O');
    reveal_strlit("Energetic");
    assert(adjective_words()[10][0] != 'O');
    reveal_strlit("Efficient");
    assert(adjective_words()[11][0] != 'O');
    reveal_strlit("Fantastic");
    assert(adjective_words()[12][0] != 'O');
    reveal_strlit("Fast");
    assert(adjective_words()[13][0] != 'O');
    reveal_strlit("Fine");
    assert(adjective_words()[14][0] != 'O');
    reveal_strlit("Fresh");
    assert(adjective_words()[15][0] != 'O');
    reveal_strlit("Good");
    assert(adjective_words()[16][0] != 'O');
    reveal_strlit("Gorgeous");
    assert(adjective_words()[17][0] != 'O');
    reveal_strlit("Great");
    assert(adjective_words()[18][0] != 'O');
    reveal_strlit("Handsome");
    assert(adjective_words()[19][0] != 'O');
    reveal_strlit("Hot");
    assert(adjective_words()[20][0] != 'O');
    reveal_strlit("Kind");
    assert(adjective_words()[21][0] != 'O');
    reveal_strlit("Lovely");
    assert(adjective_words()[22][0] != 'O');
    reveal_strlit("Mystic");
    assert(adjective_words()[23][0] != 'O');
    reveal_strlit("Neat");
    assert(adjective_words()[24][0] != 'O');
    reveal_strlit("Nice");
    assert(adjective_words()[25][0] != 'O');
    reveal_strlit("Patient");
    assert(adjective_words()[26][0] != 'O');
    reveal_strlit("Pretty");
    assert(adjective_words()[27][0] != 'O');
    reveal_strlit("Powerful");
    assert(adjective_words()[28][0] != 'O');
    reveal_strlit("Rich");
    assert(adjective_words()[29][0] != 'O');
    reveal_strlit("Secret");
    assert(adjective_words()[30][0] != 'O');
    reveal_strlit("Smart");
    assert(adjective_words()[31][0] != 'O');
    reveal_strlit("Solid");
    assert(adjective_words()[32][0] != 'O');
    reveal_strlit("Special");
    assert(adjective_words()[33][0] != 'O');
    reveal_strlit("Strategic");
    assert(adjective_words()[34][0] != 'O');
    reveal_strlit("Strong");
    assert(adjective_words()[35][0] != 'O');
    reveal_strlit("Tidy");
    assert(adjective_words()[36][0] != 'O');
    reveal_strlit("Wise");
    assert(adjective_words()[37][0] != 'O');
}

/// An English alias, regenerated, never reads back as a name the user set
/// such as `Old Alias`: every English alias starts with one of the
/// adjectives, and none of them starts with `O`.
pub proof fn law_regenerated_english_alias_is_not_old_alias(x: Seq<char>)
    requires
        generated_for("en"@, x),
    ensures
        x != "Old Alias"@,
{
    let (i, j) = choose|i: int, j: int|
        0 <= i < adjective_words().len() && 0 <= j < fruit_words().len() && x == combine_spec(
            template_for(data_locale("en"@)),
            #[trigger] adjective_words()[i],
            #[trigger] fruit_words()[j],
        );
    lemma_adjectives_ok();
    lemma_no_adjective_starts_with_o();
    let a = adjective_words()[i];
    let f = fruit_words()[j];
    assert(word_ok(a));
    assert(no_brace(a));
    reveal_strlit("{adjective} {fruit}");
    reveal_strlit("{adjective}");
    reveal_strlit("{fruit}");
    reveal_strlit(" ");
    reveal_strlit("en");
    reveal_strlit("Old Alias");
    reveal_strlit("zh-CN");
    reveal_strlit("zh-TW");
    reveal_strlit("zh-HK");
    reveal_strlit("ro");
    reveal_strlit("ms");
    assert(data_locale("en"@) == "en"@);
    assert("en"@ != "zh-CN"@ && "en"@ != "zh-TW"@ && "en"@ != "zh-HK"@) by {
        assert("en"@.len() != "zh-CN"@.len());
        assert("en"@.len() != "zh-TW"@.len());
        assert("en"@.len() != "zh-HK"@.len());
    }
    assert("en"@ != "ro"@ && "en"@ != "ms"@) by {
        assert("en"@[0] != "ro"@[0]);
        assert("en"@[0] != "ms"@[0]);
    }
    assert(template_for(data_locale("en"@)) == "{adjective} {fruit}"@);
    assert("{adjective} {fruit}"@ =~= "{adjective}"@ + " "@ + "{fruit}"@);
    lemma_combine_adjective_first(" "@, a, f);
    assert(x[0] == a[0]);
    assert("Old Alias"@[0] == 'O');
}

/// Loading the alias twice gives the same alias. The first load returns the
/// stored alias and writes nothing, or returns a new alias and writes what
/// saving it gives; the alias file then holds `after`, and reading it back
/// gives the alias the first load returned.
pub proof fn law_alias_load_is_stable(id: Seq<char>, content: Option<Seq<char>>, x: Seq<char>, written: Option<Seq<char>>)
    requires
        match persisted_spec(content) {
            Some(a) => x == a && written is None,
            None => generated_for(id, x) && written == Some(save_spec(x)->Ok_0) && save_spec(x) is Ok,
        },
    ensures
        persisted_spec(
            match written {
                Some(w) => Some(w),
                None => content,
            },
        ) == Some(x),
{
    if persisted_spec(content) is None {
        law_generated_alias_reloads(id, x);
    }
}

/// After a regeneration, the next load gives the new alias: what saving it
/// writes reads back as that alias.
pub proof fn law_regenerated_alias_is_what_loads(id: Seq<char>, alias: Seq<char>, written: Seq<char>)
    requires
        generated_for(id, alias),
        save_spec(alias) == Ok::<Seq<char>, Seq<char>>(written),
    ensures
        persisted_spec(Some(written)) == Some(alias),
{
    law_generated_alias_reloads(id, alias);
}

} // verus!
