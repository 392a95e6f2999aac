//! Splitting raw schema text into whitespace-delimited tokens, and the law
//! that tokenization is idempotent under re-joining with single spaces.

use vstd::prelude::*;

use crate::util::push_deep;

verus! {

/// Whether `c` separates tokens.
pub open spec fn is_delim(c: char) -> bool {
    c == ' ' || c == '\t' || c == '\n'
}

/// The tokens of `s`, given a partial token `cur` read so far.
pub open spec fn tok_rec(s: Seq<char>, cur: Seq<char>) -> Seq<Seq<char>>
    decreases s.len(),
{
    if s.len() == 0 {
        if cur.len() == 0 {
            Seq::empty()
        } else {
            seq![cur]
        }
    } else if is_delim(s[0]) {
        (if cur.len() == 0 {
            Seq::<Seq<char>>::empty()
        } else {
            seq![cur]
        }) + tok_rec(s.skip(1), Seq::empty())
    } else {
        tok_rec(s.skip(1), cur.push(s[0]))
    }
}

/// The whitespace-delimited tokens of `s`: maximal runs of non-delimiter
/// characters, in order; empty pieces are dropped.
pub open spec fn spec_tokenize(s: Seq<char>) -> Seq<Seq<char>> {
    tok_rec(s, Seq::empty())
}

/// A well-formed token: non-empty and free of delimiter characters.
pub open spec fn token_wf(t: Seq<char>) -> bool {
    t.len() > 0 && (forall|k: int| 0 <= k < t.len() ==> !is_delim(t[k]))
}

/// The tokens joined by single spaces.
pub open spec fn spec_join(ts: Seq<Seq<char>>) -> Seq<char>
    decreases ts.len(),
{
    if ts.len() == 0 {
        Seq::empty()
    } else if ts.len() == 1 {
        ts[0]
    } else {
        spec_join(ts.drop_last()) + seq![' '] + ts.last()
    }
}

/// Split text into whitespace-delimited tokens, dropping empty pieces.
pub fn tokenize(text: &str) -> (r: Vec<String>)
    ensures
        r.deep_view() == spec_tokenize(text@),
{
    let n = text.unicode_len();
    let mut toks: Vec<String> = Vec::new();
    let mut start: usize = 0;
    let mut i: usize = 0;
    proof {
        assert(text@.skip(0) =~= text@);
        assert(text@.subrange(0, 0) =~= Seq::<char>::empty());
        assert(toks.deep_view() =~= Seq::<Seq<char>>::empty());
    }
    while i < n
        invariant
            text@.len() == n,
            0 <= start <= i <= n,
            toks.deep_view() + tok_rec(text@.skip(i as int), text@.subrange(start as int, i as int))
                == spec_tokenize(text@),
        decreases n - i,
    {
        let ghost rest = text@.skip(i as int);
        let ghost cur = text@.subrange(start as int, i as int);
        let c = text.get_char(i);
        proof {
            assert(rest[0] == text@[i as int]);
            assert(rest.skip(1) =~= text@.skip(i + 1));
        }
        if c == ' ' || c == '\t' || c == '\n' {
            if start < i {
                let tok = text.substring_char(start, i).to_owned();
                proof {
                    assert(tok_rec(rest, cur) =~= seq![cur] + tok_rec(
                        text@.skip(i + 1),
                        Seq::empty(),
                    ));
                }
                push_deep(&mut toks, tok);
                proof {
                    assert(toks.deep_view() + tok_rec(text@.skip(i + 1), Seq::empty())
                        =~= spec_tokenize(text@));
                }
            } else {
                proof {
                    assert(cur =~= Seq::<char>::empty());
                    assert(tok_rec(rest, cur) =~= tok_rec(text@.skip(i + 1), Seq::empty()));
                }
            }
            start = i + 1;
            proof {
                assert(text@.subrange(start as int, i + 1) =~= Seq::<char>::empty());
            }
        } else {
            proof {
                assert(!is_delim(rest[0]));
                assert(text@.subrange(start as int, i + 1) =~= cur.push(text@[i as int]));
                assert(tok_rec(rest, cur) == tok_rec(
                    text@.skip(i + 1),
                    text@.subrange(start as int, i + 1),
                ));
            }
        }
        i = i + 1;
    }
    let ghost cur = text@.subrange(start as int, n as int);
    proof {
        assert(text@.skip(n as int) =~= Seq::<char>::empty());
    }
    if start < n {
        let tok = text.substring_char(start, n).to_owned();
        proof {
            assert(tok_rec(text@.skip(n as int), cur) =~= seq![cur]);
        }
        push_deep(&mut toks, tok);
        proof {
            assert(toks.deep_view() =~= spec_tokenize(text@));
        }
    } else {
        proof {
            assert(cur =~= Seq::<char>::empty());
            assert(tok_rec(text@.skip(n as int), cur) =~= Seq::<Seq<char>>::empty());
            assert(toks.deep_view() =~= spec_tokenize(text@));
        }
    }
    toks
}

/// Join tokens with single spaces.
pub fn join_with_spaces(tokens: &Vec<String>) -> (r: String)
    ensures
        r@ == spec_join(tokens.deep_view()),
{
    let ghost tv = tokens.deep_view();
    if tokens.len() == 0 {
        let r = String::new();
        proof {
            assert(r@ =~= spec_join(tv));
        }
        return r;
    }
    let mut out = tokens[0].clone();
    let mut i: usize = 1;
    proof {
        assert(tv.take(1) =~= seq![tv[0]]);
        assert(spec_join(tv.take(1)) == tv[0]);
    }
    while i < tokens.len()
        invariant
            1 <= i <= tokens.len(),
            tv == tokens.deep_view(),
            tokens@.len() == tv.len(),
            out@ == spec_join(tv.take(i as int)),
        decreases tokens.len() - i,
    {
        out.append(" ");
        out.append(tokens[i].as_str());
        proof {
            reveal_strlit(" ");
            assert(" "@ =~= seq![' ']);
            assert(tv.take(i + 1).drop_last() =~= tv.take(i as int));
            assert(tv.take(i + 1).last() == tv[i as int]);
            assert(out@ =~= spec_join(tv.take(i + 1)));
        }
        i = i + 1;
    }
    proof {
        assert(tv.take(tv.len() as int) =~= tv);
    }
    out
}

proof fn lemma_tok_rec_wf(s: Seq<char>, cur: Seq<char>)
    requires
        forall|k: int| 0 <= k < cur.len() ==> !is_delim(cur[k]),
    ensures
        forall|i: int|
            0 <= i < tok_rec(s, cur).len() ==> #[trigger] token_wf(tok_rec(s, cur)[i]),
    decreases s.len(),
{
    if s.len() == 0 {
        if cur.len() > 0 {
            assert(token_wf(cur));
            assert forall|i: int| 0 <= i < tok_rec(s, cur).len() implies #[trigger] token_wf(
                tok_rec(s, cur)[i],
            ) by {
                assert(tok_rec(s, cur)[i] == cur);
            }
        }
    } else if is_delim(s[0]) {
        lemma_tok_rec_wf(s.skip(1), Seq::empty());
        let head: Seq<Seq<char>> = if cur.len() == 0 {
            Seq::empty()
        } else {
            seq![cur]
        };
        let rest = tok_rec(s.skip(1), Seq::empty());
        assert(tok_rec(s, cur) == head + rest);
        assert forall|i: int| 0 <= i < tok_rec(s, cur).len() implies #[trigger] token_wf(
            tok_rec(s, cur)[i],
        ) by {
            if i < head.len() {
                assert(tok_rec(s, cur)[i] == cur);
                assert(token_wf(cur));
            } else {
                assert(tok_rec(s, cur)[i] == rest[i - head.len()]);
                assert(token_wf(rest[i - head.len()]));
            }
        }
    } else {
        assert(forall|k: int| 0 <= k < cur.push(s[0]).len() ==> !is_delim(cur.push(s[0])[k]));
        lemma_tok_rec_wf(s.skip(1), cur.push(s[0]));
        let rest = tok_rec(s.skip(1), cur.push(s[0]));
        assert(tok_rec(s, cur) == rest);
        assert forall|i: int| 0 <= i < tok_rec(s, cur).len() implies #[trigger] token_wf(
            tok_rec(s, cur)[i],
        ) by {
            assert(token_wf(rest[i]));
        }
    }
}

/// Law: every token produced by the tokenizer is non-empty and holds no
/// delimiter character.
pub proof fn lemma_tokenize_wf(s: Seq<char>)
    ensures
        forall|i: int|
            0 <= i < spec_tokenize(s).len() ==> #[trigger] token_wf(spec_tokenize(s)[i]),
{
    lemma_tok_rec_wf(s, Seq::empty());
}

proof fn lemma_tok_prepend(t: Seq<char>, s: Seq<char>, cur: Seq<char>)
    requires
        forall|k: int| 0 <= k < t.len() ==> !is_delim(t[k]),
    ensures
        tok_rec(t + s, cur) == tok_rec(s, cur + t),
    decreases t.len(),
{
    if t.len() == 0 {
        assert(t + s =~= s);
        assert(cur + t =~= cur);
    } else {
        assert((t + s)[0] == t[0]);
        assert(!is_delim(t[0]));
        assert((t + s).skip(1) =~= t.skip(1) + s);
        lemma_tok_prepend(t.skip(1), s, cur.push(t[0]));
        assert(cur.push(t[0]) + t.skip(1) =~= cur + t);
    }
}

proof fn lemma_join_head(ts: Seq<Seq<char>>)
    requires
        ts.len() >= 2,
    ensures
        spec_join(ts) == ts[0] + seq![' '] + spec_join(ts.skip(1)),
    decreases ts.len(),
{
    if ts.len() == 2 {
        assert(ts.drop_last() =~= seq![ts[0]]);
        assert(ts.skip(1) =~= seq![ts[1]]);
        assert(spec_join(ts.skip(1)) == ts[1]);
    } else {
        lemma_join_head(ts.drop_last());
        assert(ts.drop_last()[0] == ts[0]);
        assert(ts.drop_last().skip(1) =~= ts.skip(1).drop_last());
        assert(ts.skip(1).len() >= 2);
        assert(ts.skip(1).last() == ts.last());
        assert(spec_join(ts.skip(1)) == spec_join(ts.skip(1).drop_last()) + seq![' ']
            + ts.last());
        assert(spec_join(ts) == spec_join(ts.drop_last()) + seq![' '] + ts.last());
        assert(spec_join(ts.drop_last()) == ts[0] + seq![' '] + spec_join(
            ts.skip(1).drop_last(),
        ));
        assert(spec_join(ts) =~= ts[0] + seq![' '] + spec_join(ts.skip(1)));
    }
}

proof fn lemma_join_tokenize(ts: Seq<Seq<char>>)
    requires
        forall|i: int| 0 <= i < ts.len() ==> #[trigger] token_wf(ts[i]),
    ensures
        spec_tokenize(spec_join(ts)) == ts,
    decreases ts.len(),
{
    if ts.len() == 0 {
        assert(spec_tokenize(Seq::empty()) =~= Seq::<Seq<char>>::empty());
    } else if ts.len() == 1 {
        assert(token_wf(ts[0]));
        lemma_tok_prepend(ts[0], Seq::empty(), Seq::empty());
        assert(ts[0] + Seq::<char>::empty() =~= ts[0]);
        assert(Seq::<char>::empty() + ts[0] =~= ts[0]);
        assert(tok_rec(Seq::<char>::empty(), ts[0]) == seq![ts[0]]);
        assert(spec_tokenize(spec_join(ts)) =~= ts);
    } else {
        lemma_join_head(ts);
        let rest_join = spec_join(ts.skip(1));
        let tail = seq![' '] + rest_join;
        assert(token_wf(ts[0]));
        assert(ts[0] + seq![' '] + rest_join =~= ts[0] + tail);
        lemma_tok_prepend(ts[0], tail, Seq::empty());
        assert(Seq::<char>::empty() + ts[0] =~= ts[0]);
        // The joined text tokenizes to the head token followed by the rest.
        assert(is_delim(tail[0]));
        assert(tail.skip(1) =~= rest_join);
        assert(tok_rec(tail, ts[0]) == seq![ts[0]] + tok_rec(rest_join, Seq::empty()));
        assert(forall|i: int| 0 <= i < ts.skip(1).len() ==> #[trigger] token_wf(ts.skip(1)[i]));
        lemma_join_tokenize(ts.skip(1));
        assert(seq![ts[0]] + ts.skip(1) =~= ts);
    }
}

/// Law: tokenizing the single-space re-join of a token sequence produced by
/// the tokenizer yields that token sequence again.
pub proof fn lemma_tokenize_idempotent(s: Seq<char>)
    ensures
        spec_tokenize(spec_join(spec_tokenize(s))) == spec_tokenize(s),
{
    lemma_tokenize_wf(s);
    lemma_join_tokenize(spec_tokenize(s));
}

} // verus!
