//! The target languages a class can be rendered into, and the canonical
//! order used to deduplicate and sort a class's language list.

use vstd::prelude::*;

verus! {

/// One of the fixed target languages of the generator.
#[allow(non_camel_case_types)]
#[derive(Clone, Copy, Debug, PartialEq, Eq, Structural)]
pub enum Language {
    JAVA,
    TYPESCRIPT,
    C,
    CPP,
    RUST,
}

/// Position of a language in the canonical total order.
pub open spec fn lang_rank(l: Language) -> int {
    match l {
        Language::JAVA => 0,
        Language::TYPESCRIPT => 1,
        Language::C => 2,
        Language::CPP => 3,
        Language::RUST => 4,
    }
}

/// All languages, listed in canonical order.
pub open spec fn all_languages() -> Seq<Language> {
    seq![Language::JAVA, Language::TYPESCRIPT, Language::C, Language::CPP, Language::RUST]
}

/// The languages of `cands` (kept in their order) that occur in `s`.
pub open spec fn canon_from(s: Seq<Language>, cands: Seq<Language>) -> Seq<Language>
    decreases cands.len(),
{
    if cands.len() == 0 {
        Seq::empty()
    } else {
        (if s.contains(cands[0]) {
            seq![cands[0]]
        } else {
            Seq::empty()
        }) + canon_from(s, cands.skip(1))
    }
}

/// The canonical form of a language list: exactly the languages occurring in
/// `s`, each once, in canonical order.
pub open spec fn canonical_langs(s: Seq<Language>) -> Seq<Language> {
    canon_from(s, all_languages())
}

proof fn lemma_concat_contains(a: Seq<Language>, b: Seq<Language>, l: Language)
    ensures
        (a + b).contains(l) <==> a.contains(l) || b.contains(l),
{
    if a.contains(l) {
        let i = choose|i: int| 0 <= i < a.len() && a[i] == l;
        assert((a + b)[i] == l);
    }
    if b.contains(l) {
        let i = choose|i: int| 0 <= i < b.len() && b[i] == l;
        assert((a + b)[a.len() + i] == l);
    }
    if (a + b).contains(l) {
        let i = choose|i: int| 0 <= i < (a + b).len() && (a + b)[i] == l;
        if i < a.len() {
            assert(a[i] == l);
        } else {
            assert(b[i - a.len()] == l);
        }
    }
}

proof fn lemma_canon_from(s: Seq<Language>, cands: Seq<Language>)
    requires
        forall|i: int, j: int|
            0 <= i < j < cands.len() ==> lang_rank(cands[i]) < lang_rank(cands[j]),
    ensures
        forall|l: Language|
            #[trigger] canon_from(s, cands).contains(l) <==> cands.contains(l) && s.contains(l),
        forall|i: int, j: int|
            0 <= i < j < canon_from(s, cands).len() ==> lang_rank(canon_from(s, cands)[i])
                < lang_rank(canon_from(s, cands)[j]),
    decreases cands.len(),
{
    if cands.len() == 0 {
        assert forall|l: Language| #[trigger]
            canon_from(s, cands).contains(l) <==> cands.contains(l) && s.contains(l) by {
            assert(!canon_from(s, cands).contains(l));
            assert(!cands.contains(l));
        }
    } else {
        let head = cands[0];
        let rest = cands.skip(1);
        let hd_part: Seq<Language> = if s.contains(head) {
            seq![head]
        } else {
            Seq::empty()
        };
        let tail_part = canon_from(s, rest);
        lemma_canon_from(s, rest);
        assert(canon_from(s, cands) == hd_part + tail_part);

        assert forall|l: Language| #[trigger]
            canon_from(s, cands).contains(l) <==> cands.contains(l) && s.contains(l) by {
            lemma_concat_contains(hd_part, tail_part, l);
            assert(cands =~= seq![head] + rest);
            lemma_concat_contains(seq![head], rest, l);
            if hd_part.contains(l) {
                assert(l == head);
            }
            if l == head && s.contains(head) {
                assert(hd_part[0] == l);
            }
            if seq![head].contains(l) {
                assert(l == head);
            }
        }

        // Every language of the tail part has a rank above the head's.
        assert forall|k: int| 0 <= k < tail_part.len() implies lang_rank(head) < lang_rank(
            tail_part[k],
        ) by {
            assert(tail_part.contains(tail_part[k]));
            assert(rest.contains(tail_part[k]));
            let m = choose|m: int| 0 <= m < rest.len() && rest[m] == tail_part[k];
            assert(cands[m + 1] == rest[m]);
        }

        assert forall|i: int, j: int|
            0 <= i < j < canon_from(s, cands).len() implies lang_rank(canon_from(s, cands)[i])
            < lang_rank(canon_from(s, cands)[j]) by {
            let c = canon_from(s, cands);
            if i < hd_part.len() {
                assert(c[j] == tail_part[j - hd_part.len()]);
            } else {
                assert(c[i] == tail_part[i - hd_part.len()]);
                assert(c[j] == tail_part[j - hd_part.len()]);
            }
        }
    }
}

/// Law: the canonical language list contains exactly the languages of the
/// input, in strictly increasing canonical order, hence without duplicates.
pub proof fn lemma_canonical_langs(s: Seq<Language>)
    ensures
        forall|l: Language| #[trigger] canonical_langs(s).contains(l) <==> s.contains(l),
        forall|i: int, j: int|
            0 <= i < j < canonical_langs(s).len() ==> lang_rank(canonical_langs(s)[i]) < lang_rank(
                canonical_langs(s)[j],
            ),
        forall|i: int, j: int|
            0 <= i < j < canonical_langs(s).len() ==> canonical_langs(s)[i] != canonical_langs(
                s,
            )[j],
{
    lemma_canon_from(s, all_languages());
    assert forall|l: Language| #[trigger] canonical_langs(s).contains(l) <==> s.contains(l) by {
        let alls = all_languages();
        match l {
            Language::JAVA => assert(alls[0] == l),
            Language::TYPESCRIPT => assert(alls[1] == l),
            Language::C => assert(alls[2] == l),
            Language::CPP => assert(alls[3] == l),
            Language::RUST => assert(alls[4] == l),
        }
    }
}

/// Whether `v` holds language `l`.
pub fn contains_lang(v: &Vec<Language>, l: Language) -> (b: bool)
    ensures
        b == v@.contains(l),
{
    let mut i: usize = 0;
    while i < v.len()
        invariant
            0 <= i <= v.len(),
            forall|k: int| 0 <= k < i ==> v@[k] != l,
        decreases v.len() - i,
    {
        if v[i] == l {
            return true;
        }
        i = i + 1;
    }
    false
}

/// Deduplicate a language list and sort it into canonical order.
pub fn canonical_languages(v: &Vec<Language>) -> (r: Vec<Language>)
    ensures
        r@ == canonical_langs(v@),
{
    let mut r: Vec<Language> = Vec::new();
    if contains_lang(v, Language::JAVA) {
        r.push(Language::JAVA);
    }
    if contains_lang(v, Language::TYPESCRIPT) {
        r.push(Language::TYPESCRIPT);
    }
    if contains_lang(v, Language::C) {
        r.push(Language::C);
    }
    if contains_lang(v, Language::CPP) {
        r.push(Language::CPP);
    }
    if contains_lang(v, Language::RUST) {
        r.push(Language::RUST);
    }
    proof {
        reveal_with_fuel(canon_from, 7);
        assert(all_languages().skip(1) =~= seq![
            Language::TYPESCRIPT,
            Language::C,
            Language::CPP,
            Language::RUST,
        ]);
        assert(all_languages().skip(1).skip(1) =~= seq![
            Language::C,
            Language::CPP,
            Language::RUST,
        ]);
        assert(all_languages().skip(1).skip(1).skip(1) =~= seq![Language::CPP, Language::RUST]);
        assert(all_languages().skip(1).skip(1).skip(1).skip(1) =~= seq![Language::RUST]);
        assert(all_languages().skip(1).skip(1).skip(1).skip(1).skip(1) =~= Seq::<
            Language,
        >::empty());
        assert(r@ =~= canonical_langs(v@));
    }
    r
}

} // verus!
