//! The finite state machine that turns the token sequence into classes, and
//! the bracket validator that runs before it.
//!
//! The machine is specified twice: once as executable code on `Parser`, and
//! once as the spec interpreter `spec_run` over token views. The contract of
//! [`Parser::parse`] pins the executable result to the interpreter, so the
//! parse result is a function of the token sequence alone.

use core::mem;
use vstd::pervasive::unreached;
use vstd::prelude::*;

use crate::class::{duplicate_class, Class, ClassV};
use crate::errors::{MError, MErrorV};
use crate::fields::{Field, FieldV};
use crate::language::{canonical_langs, canonical_languages, lang_rank, lemma_canonical_langs, Language};
use crate::strutil::{ends_with_char, str_eq, strip_last};
use crate::types::{classify_type, spec_classify, Access};
use crate::util::push_deep;

verus! {

/// The states of the parsing state machine.
#[allow(non_camel_case_types)]
#[derive(Clone, Copy, Debug, PartialEq, Eq, Structural)]
pub enum ParseState {
    /// Expecting the `[` that opens a language list.
    FILES,
    /// Expecting the class name.
    CLASS,
    /// Expecting `{` or a field name ending in `:`.
    FieldT,
    /// Expecting a field type, or `}` closing the class.
    FieldN,
}

/// Abstract machine state, carrying exactly the data valid in it.
pub enum StateV {
    /// Expecting `[`.
    Files,
    /// Inside `[...]`, collecting language tags.
    Langs { langs: Seq<Language> },
    /// Expecting the class name, languages already collected.
    ClassName { langs: Seq<Language> },
    /// Expecting `{` or a field name; the class is being built.
    FieldT { class: ClassV },
    /// Expecting a field type or `}`; `pending` is the field name waiting
    /// for its type, if one is waiting.
    FieldN { class: ClassV, pending: Option<Seq<char>> },
}

/// `t` without one trailing comma, if it carries one.
pub open spec fn strip_comma(t: Seq<char>) -> Seq<char> {
    if t.len() > 0 && t.last() == ',' {
        t.drop_last()
    } else {
        t
    }
}

/// The error for a missing `[` at the start of a class block.
pub open spec fn err_expect_open(t: Seq<char>) -> MErrorV {
    MErrorV::ParseError("Expected object to start with `[` but found "@ + t)
}

/// The error for an unknown language tag.
pub open spec fn err_unknown_lang(t: Seq<char>) -> MErrorV {
    MErrorV::ParseError(
        "Unknown language token found. Expected either `rs`, `ts`, `cpp`, `c`, or `java` but found "@
            + t,
    )
}

/// The error for a language list that closes without a single tag.
pub open spec fn err_empty_langs() -> MErrorV {
    MErrorV::ParseError("Expected at least one language tag between `[` and `]`"@)
}

/// The error for a token that is neither `{` nor a field name.
pub open spec fn err_expect_field(t: Seq<char>) -> MErrorV {
    MErrorV::ParseError("Unknown token found. Expected field but found '"@ + t + "'"@)
}

/// The error for `{` standing where a field type is expected.
pub open spec fn err_brace_type() -> MErrorV {
    MErrorV::ParseError("Cannot have `{` as a field type."@)
}

/// The error for a field type with no field name pending.
pub open spec fn err_no_field_name() -> MErrorV {
    MErrorV::ParseError("Error getting the value of the current field"@)
}

/// One step of the machine on token `t`: the next state and output
/// collection, or the error that aborts the parse.
pub open spec fn spec_step(t: Seq<char>, st: StateV, objects: Seq<ClassV>) -> Result<
    (StateV, Seq<ClassV>),
    MErrorV,
> {
    match st {
        StateV::Files => {
            if t == "["@ {
                Ok((StateV::Langs { langs: Seq::empty() }, objects))
            } else {
                Err(err_expect_open(t))
            }
        },
        StateV::Langs { langs } => {
            let u = strip_comma(t);
            if u == "]"@ {
                if langs.len() == 0 {
                    Err(err_empty_langs())
                } else {
                    Ok((StateV::ClassName { langs: canonical_langs(langs) }, objects))
                }
            } else if u == "rs"@ {
                Ok((StateV::Langs { langs: langs.push(Language::RUST) }, objects))
            } else if u == "cpp"@ {
                Ok((StateV::Langs { langs: langs.push(Language::CPP) }, objects))
            } else if u == "c"@ {
                Ok((StateV::Langs { langs: langs.push(Language::C) }, objects))
            } else if u == "java"@ {
                Ok((StateV::Langs { langs: langs.push(Language::JAVA) }, objects))
            } else if u == "ts"@ {
                Ok((StateV::Langs { langs: langs.push(Language::TYPESCRIPT) }, objects))
            } else {
                Err(err_unknown_lang(u))
            }
        },
        StateV::ClassName { langs } => Ok(
            (
                StateV::FieldT {
                    class: ClassV {
                        name: t,
                        fields: Seq::empty(),
                        languages: langs,
                        access: Access::UNDEFINED,
                    },
                },
                objects,
            ),
        ),
        StateV::FieldT { class } => {
            if t == "{"@ {
                Ok((StateV::FieldT { class }, objects))
            } else if t.len() >= 2 && t.last() == ':' {
                Ok((StateV::FieldN { class, pending: Some(t.drop_last()) }, objects))
            } else {
                Err(err_expect_field(t))
            }
        },
        StateV::FieldN { class, pending } => {
            if t == "{"@ {
                Err(err_brace_type())
            } else if t == "}"@ {
                Ok((StateV::Files, objects.push(class)))
            } else {
                let more = t.len() > 0 && t.last() == ',';
                let u = if more {
                    t.drop_last()
                } else {
                    t
                };
                match pending {
                    None => Err(err_no_field_name()),
                    Some(name) => {
                        let f = FieldV {
                            field_type: spec_classify(u),
                            name: name,
                            access: Access::UNDEFINED,
                        };
                        let class2 = ClassV { fields: class.fields.push(f), ..class };
                        if more {
                            Ok((StateV::FieldT { class: class2 }, objects))
                        } else {
                            Ok((StateV::FieldN { class: class2, pending: None }, objects))
                        }
                    },
                }
            }
        },
    }
}

/// Run the machine from token `i` to the end. Running out of tokens yields
/// the classes finalized so far; an error aborts the whole run.
pub open spec fn spec_run(
    tokens: Seq<Seq<char>>,
    st: StateV,
    objects: Seq<ClassV>,
    i: int,
) -> Result<Seq<ClassV>, MErrorV>
    decreases tokens.len() - i,
{
    if i < 0 || i >= tokens.len() {
        Ok(objects)
    } else {
        match spec_step(tokens[i], st, objects) {
            Err(e) => Err(e),
            Ok((st2, obj2)) => spec_run(tokens, st2, obj2, i + 1),
        }
    }
}

/// The result of parsing a whole token sequence from a fresh parser.
pub open spec fn spec_parse(tokens: Seq<Seq<char>>) -> Result<Seq<ClassV>, MErrorV> {
    spec_run(tokens, StateV::Files, Seq::empty(), 0)
}

/// A language list in strictly increasing canonical rank: sorted, and
/// therefore free of duplicates.
pub open spec fn langs_canonical(ls: Seq<Language>) -> bool {
    forall|i: int, j: int| 0 <= i < j < ls.len() ==> lang_rank(ls[i]) < lang_rank(ls[j])
}

/// The model invariant of a finalized class: its language list is
/// non-empty and canonical, and none of its field names is empty.
pub open spec fn class_wf(c: ClassV) -> bool {
    &&& c.languages.len() > 0
    &&& langs_canonical(c.languages)
    &&& forall|k: int| 0 <= k < c.fields.len() ==> #[trigger] c.fields[k].name.len() > 0
}

/// The machine never carries a malformed class or an empty pending field
/// name through its states.
pub open spec fn machine_inv(st: StateV) -> bool {
    match st {
        StateV::Files => true,
        StateV::Langs { .. } => true,
        StateV::ClassName { langs } => langs.len() > 0 && langs_canonical(langs),
        StateV::FieldT { class } => class_wf(class),
        StateV::FieldN { class, pending } => class_wf(class) && (pending matches Some(n)
            ==> n.len() > 0),
    }
}

proof fn lemma_step_preserves_inv(t: Seq<char>, st: StateV, objects: Seq<ClassV>)
    requires
        machine_inv(st),
        forall|k: int| 0 <= k < objects.len() ==> #[trigger] class_wf(objects[k]),
    ensures
        match spec_step(t, st, objects) {
            Ok((st2, obj2)) => machine_inv(st2) && (forall|k: int|
                0 <= k < obj2.len() ==> #[trigger] class_wf(obj2[k])),
            Err(_) => true,
        },
{
    match st {
        StateV::Files => {},
        StateV::Langs { langs } => {
            if strip_comma(t) == "]"@ {
                lemma_canonical_langs(langs);
                if langs.len() > 0 {
                    assert(langs.contains(langs[0]));
                    assert(canonical_langs(langs).contains(langs[0]));
                }
            }
        },
        StateV::ClassName { langs } => {},
        StateV::FieldT { class } => {},
        StateV::FieldN { class, pending } => {
            if t == "{"@ {
            } else if t == "}"@ {
                let obj2 = objects.push(class);
                assert forall|k: int| 0 <= k < obj2.len() implies #[trigger] class_wf(
                    obj2[k],
                ) by {
                    if k < objects.len() {
                        assert(obj2[k] == objects[k]);
                    } else {
                        assert(obj2[k] == class);
                    }
                }
            } else {
                match pending {
                    None => {},
                    Some(name) => {
                        let more = t.len() > 0 && t.last() == ',';
                        let u = if more {
                            t.drop_last()
                        } else {
                            t
                        };
                        let f = FieldV {
                            field_type: spec_classify(u),
                            name: name,
                            access: Access::UNDEFINED,
                        };
                        let fields2 = class.fields.push(f);
                        assert forall|k: int| 0 <= k < fields2.len() implies #[trigger] fields2[k].name.len()
                            > 0 by {
                            if k < class.fields.len() {
                                assert(fields2[k] == class.fields[k]);
                            } else {
                                assert(fields2[k] == f);
                            }
                        }
                    },
                }
            }
        },
    }
}

proof fn lemma_run_preserves_inv(tokens: Seq<Seq<char>>, st: StateV, objects: Seq<ClassV>, i: int)
    requires
        machine_inv(st),
        forall|k: int| 0 <= k < objects.len() ==> #[trigger] class_wf(objects[k]),
    ensures
        match spec_run(tokens, st, objects, i) {
            Ok(objs) => forall|k: int| 0 <= k < objs.len() ==> #[trigger] class_wf(objs[k]),
            Err(_) => true,
        },
    decreases tokens.len() - i,
{
    if i < 0 || i >= tokens.len() {
    } else {
        lemma_step_preserves_inv(tokens[i], st, objects);
        match spec_step(tokens[i], st, objects) {
            Err(_) => {},
            Ok((st2, obj2)) => {
                lemma_run_preserves_inv(tokens, st2, obj2, i + 1);
            },
        }
    }
}

/// Law: every class a successful parse yields satisfies the model
/// invariant — its language list is non-empty and stands in strictly
/// increasing canonical order (so it holds no duplicates), and none of its
/// field names is empty.
pub proof fn lemma_parse_classes_wf(tokens: Seq<Seq<char>>)
    ensures
        match spec_parse(tokens) {
            Ok(objs) => forall|k: int| 0 <= k < objs.len() ==> #[trigger] class_wf(objs[k]),
            Err(_) => true,
        },
{
    lemma_run_preserves_inv(tokens, StateV::Files, Seq::empty(), 0);
}

proof fn lemma_prefix_refl(s: Seq<ClassV>)
    ensures
        s.is_prefix_of(s),
{
    assert(s =~= s.subrange(0, s.len() as int));
}

proof fn lemma_prefix_push(s: Seq<ClassV>, c: ClassV)
    ensures
        s.is_prefix_of(s.push(c)),
{
    assert(s =~= s.push(c).subrange(0, s.len() as int));
}

proof fn lemma_prefix_trans(a: Seq<ClassV>, b: Seq<ClassV>, c: Seq<ClassV>)
    requires
        a.is_prefix_of(b),
        b.is_prefix_of(c),
    ensures
        a.is_prefix_of(c),
{
    assert(a =~= c.subrange(0, a.len() as int));
}

/// The token-driven parser. The transient builder fields are only
/// meaningful in the states described by [`Parser::wf`].
#[derive(Debug)]
pub struct Parser {
    pub objects: Vec<Class>,
    pub parse_state: ParseState,
    pub index: usize,
    pub current_class: Option<Class>,
    pub current_field_name: Option<String>,
    pub current_languages: Option<Vec<Language>>,
}

impl Parser {
    /// The builder fields are consistent with the parse state.
    pub open spec fn wf(self) -> bool {
        match self.parse_state {
            ParseState::FILES => self.current_class is None,
            ParseState::CLASS => (self.current_languages matches Some(v) && v@.len() > 0)
                && self.current_class is None,
            ParseState::FieldT => self.current_class is Some,
            ParseState::FieldN => self.current_class is Some,
        }
    }

    /// The abstract machine state this parser stands in.
    pub open spec fn abs_state(self) -> StateV
        recommends
            self.wf(),
    {
        match self.parse_state {
            ParseState::FILES => StateV::Files,
            ParseState::CLASS => StateV::ClassName { langs: self.current_languages->0@ },
            ParseState::FieldT => StateV::FieldT { class: self.current_class->0@ },
            ParseState::FieldN => StateV::FieldN {
                class: self.current_class->0@,
                pending: self.current_field_name.deep_view(),
            },
        }
    }

    /// A fresh parser: no classes, expecting the first language list.
    pub fn new() -> (p: Parser)
        ensures
            p.wf(),
            p.abs_state() == StateV::Files,
            p.objects.deep_view() == Seq::<ClassV>::empty(),
            p.index == 0,
            p.current_field_name is None,
            p.current_languages is None,
    {
        let p = Parser {
            objects: Vec::new(),
            parse_state: ParseState::FILES,
            index: 0,
            current_class: None,
            current_field_name: None,
            current_languages: None,
        };
        proof {
            assert(p.objects.deep_view() =~= Seq::<ClassV>::empty());
        }
        p
    }

    /// A copy of the classes parsed so far, in finalization order.
    pub fn get_objects(&self) -> (r: Vec<Class>)
        ensures
            r.deep_view() == self.objects.deep_view(),
    {
        let mut r: Vec<Class> = Vec::new();
        let mut n: usize = 0;
        proof {
            assert(r.deep_view() =~= self.objects.deep_view().take(0));
        }
        while n < self.objects.len()
            invariant
                0 <= n <= self.objects@.len(),
                r.deep_view() == self.objects.deep_view().take(n as int),
            decreases self.objects@.len() - n,
        {
            let c = duplicate_class(&self.objects[n]);
            push_deep(&mut r, c);
            proof {
                assert(r.deep_view() =~= self.objects.deep_view().take(n + 1));
            }
            n = n + 1;
        }
        proof {
            assert(self.objects.deep_view().take(self.objects@.len() as int)
                =~= self.objects.deep_view());
        }
        r
    }

    /// Forget the pending field name.
    pub fn reset_current_field(&mut self)
        ensures
            *final(self) == (Parser { current_field_name: None, ..*old(self) }),
    {
        self.current_field_name = None;
    }

    /// Move the class under construction out of the parser.
    fn take_current_class(&mut self) -> (c: Class)
        requires
            old(self).current_class is Some,
        ensures
            c == old(self).current_class->0,
            *final(self) == (Parser { current_class: None, ..*old(self) }),
    {
        let mut tmp: Option<Class> = None;
        mem::swap(&mut self.current_class, &mut tmp);
        match tmp {
            Some(c) => c,
            None => unreached(),
        }
    }

    /// Walk the token sequence, one state transition per token, appending a
    /// class to `objects` at each closing `}`. The result and the final
    /// class collection are exactly those of the spec interpreter, so
    /// parsing the same tokens from equal parser states always yields equal
    /// results.
    #[verifier::loop_isolation(false)]
    pub fn parse(&mut self, content: &[String]) -> (r: Result<(), MError>)
        requires
            old(self).wf(),
        ensures
            final(self).wf(),
            match r {
                Ok(()) => spec_run(
                    content.deep_view(),
                    old(self).abs_state(),
                    old(self).objects.deep_view(),
                    old(self).index as int,
                ) == Ok::<Seq<ClassV>, MErrorV>(final(self).objects.deep_view()),
                Err(e) => {
                    &&& old(self).objects.deep_view().is_prefix_of(
                        final(self).objects.deep_view(),
                    )
                    &&& spec_run(
                        content.deep_view(),
                        old(self).abs_state(),
                        old(self).objects.deep_view(),
                        old(self).index as int,
                    ) == Err::<Seq<ClassV>, MErrorV>(e@)
                },
            },
    {
        let ghost toks = content.deep_view();
        let ghost start = *self;
        proof {
            lemma_prefix_refl(start.objects.deep_view());
        }
        while self.index < content.len()
            invariant
                self.wf(),
                toks == content.deep_view(),
                toks.len() == content@.len(),
                start.objects.deep_view().is_prefix_of(self.objects.deep_view()),
                spec_run(toks, start.abs_state(), start.objects.deep_view(), start.index as int)
                    == spec_run(
                    toks,
                    self.abs_state(),
                    self.objects.deep_view(),
                    self.index as int,
                ),
            decreases content@.len() - self.index,
        {
            let ghost before = self.objects.deep_view();
            let step = match self.parse_state {
                ParseState::FILES => self.add_language(content),
                ParseState::CLASS => self.handle_class(content),
                ParseState::FieldT => self.handle_field_t(content),
                ParseState::FieldN => self.handle_field_n(content),
            };
            match step {
                Ok(()) => {
                    proof {
                        lemma_prefix_trans(
                            start.objects.deep_view(),
                            before,
                            self.objects.deep_view(),
                        );
                    }
                },
                Err(e) => {
                    return Err(e);
                },
            }
        }
        proof {
            assert(spec_run(toks, self.abs_state(), self.objects.deep_view(), self.index as int)
                == Ok::<Seq<ClassV>, MErrorV>(self.objects.deep_view()));
        }
        Ok(())
    }

    /// Consume `[`, the language tags and `]`, leaving the canonical
    /// language list for the class that follows.
    #[verifier::loop_isolation(false)]
    fn add_language(&mut self, tokens: &[String]) -> (r: Result<(), MError>)
        requires
            old(self).wf(),
            old(self).parse_state == ParseState::FILES,
            old(self).index < tokens@.len(),
        ensures
            final(self).wf(),
            match r {
                Ok(()) => {
                    &&& old(self).index < final(self).index <= tokens@.len()
                    &&& old(self).objects.deep_view().is_prefix_of(
                        final(self).objects.deep_view(),
                    )
                    &&& spec_run(
                        tokens.deep_view(),
                        old(self).abs_state(),
                        old(self).objects.deep_view(),
                        old(self).index as int,
                    ) == spec_run(
                        tokens.deep_view(),
                        final(self).abs_state(),
                        final(self).objects.deep_view(),
                        final(self).index as int,
                    )
                },
                Err(e) => {
                    &&& final(self).objects == old(self).objects
                    &&& spec_run(
                        tokens.deep_view(),
                        old(self).abs_state(),
                        old(self).objects.deep_view(),
                        old(self).index as int,
                    ) == Err::<Seq<ClassV>, MErrorV>(e@)
                },
            },
    {
        let ghost toks = tokens.deep_view();
        let ghost start = *self;
        let ghost obj0 = self.objects.deep_view();
        let ghost i0 = self.index as int;
        proof {
            lemma_prefix_refl(obj0);
        }
        let first = &tokens[self.index];
        proof {
            assert(toks[i0] == first@);
        }
        if !str_eq(first.as_str(), "[") {
            let mut msg = String::from_str("Expected object to start with `[` but found ");
            msg.append(first.as_str());
            proof {
                assert(msg@ =~= "Expected object to start with `[` but found "@ + toks[i0]);
            }
            return Err(MError::ParseError(msg));
        }
        let mut collected: Vec<Language> = Vec::new();
        let mut i: usize = self.index + 1;
        proof {
            assert(collected@ =~= Seq::<Language>::empty());
            assert(spec_run(toks, start.abs_state(), obj0, i0) == spec_run(
                toks,
                StateV::Langs { langs: collected@ },
                obj0,
                i as int,
            ));
        }
        while i < tokens.len()
            invariant
                start.index < i <= tokens@.len(),
                toks == tokens.deep_view(),
                toks.len() == tokens@.len(),
                start.wf(),
                start.parse_state == ParseState::FILES,
                i0 == start.index as int,
                obj0 == start.objects.deep_view(),
                *self == start,
                spec_run(toks, start.abs_state(), obj0, i0) == spec_run(
                    toks,
                    StateV::Langs { langs: collected@ },
                    obj0,
                    i as int,
                ),
            decreases tokens@.len() - i,
        {
            let token = &tokens[i];
            let stripped: String = if ends_with_char(token.as_str(), ',') {
                strip_last(token.as_str())
            } else {
                token.clone()
            };
            proof {
                assert(toks[i as int] == token@);
                assert(stripped@ == strip_comma(toks[i as int]));
            }
            if str_eq(stripped.as_str(), "]") {
                if collected.len() == 0 {
                    proof {
                        assert(spec_run(toks, StateV::Langs { langs: collected@ }, obj0, i as int)
                            == Err::<Seq<ClassV>, MErrorV>(err_empty_langs()));
                    }
                    return Err(
                        MError::ParseError(
                            String::from_str(
                                "Expected at least one language tag between `[` and `]`",
                            ),
                        ),
                    );
                }
                let ghost prev = collected@;
                let canon = canonical_languages(&collected);
                self.current_languages = Some(canon);
                self.parse_state = ParseState::CLASS;
                self.index = i + 1;
                proof {
                    lemma_canonical_langs(prev);
                    assert(prev.contains(prev[0]));
                    assert(canonical_langs(prev).contains(prev[0]));
                    assert(spec_step(toks[i as int], StateV::Langs { langs: prev }, obj0)
                        == Ok::<(StateV, Seq<ClassV>), MErrorV>(
                        (StateV::ClassName { langs: canonical_langs(prev) }, obj0),
                    ));
                    assert(spec_run(toks, StateV::Langs { langs: prev }, obj0, i as int)
                        == spec_run(
                        toks,
                        StateV::ClassName { langs: canonical_langs(prev) },
                        obj0,
                        i + 1,
                    ));
                    assert(self.abs_state() == StateV::ClassName {
                        langs: canonical_langs(prev),
                    });
                }
                return Ok(());
            }
            let lang: Language;
            if str_eq(stripped.as_str(), "rs") {
                lang = Language::RUST;
            } else if str_eq(stripped.as_str(), "cpp") {
                lang = Language::CPP;
            } else if str_eq(stripped.as_str(), "c") {
                lang = Language::C;
            } else if str_eq(stripped.as_str(), "java") {
                lang = Language::JAVA;
            } else if str_eq(stripped.as_str(), "ts") {
                lang = Language::TYPESCRIPT;
            } else {
                let mut msg = String::from_str(
                    "Unknown language token found. Expected either `rs`, `ts`, `cpp`, `c`, or `java` but found ",
                );
                msg.append(stripped.as_str());
                proof {
                    assert(msg@
                        =~= "Unknown language token found. Expected either `rs`, `ts`, `cpp`, `c`, or `java` but found "@
                        + strip_comma(toks[i as int]));
                    assert(spec_step(toks[i as int], StateV::Langs { langs: collected@ }, obj0)
                        == Err::<(StateV, Seq<ClassV>), MErrorV>(
                        err_unknown_lang(strip_comma(toks[i as int])),
                    ));
                    assert(spec_run(toks, StateV::Langs { langs: collected@ }, obj0, i as int)
                        == Err::<Seq<ClassV>, MErrorV>(
                        err_unknown_lang(strip_comma(toks[i as int])),
                    ));
                }
                return Err(MError::ParseError(msg));
            }
            let ghost prev = collected@;
            collected.push(lang);
            proof {
                assert(spec_step(toks[i as int], StateV::Langs { langs: prev }, obj0)
                    == Ok::<(StateV, Seq<ClassV>), MErrorV>(
                    (StateV::Langs { langs: prev.push(lang) }, obj0),
                ));
                assert(spec_run(toks, StateV::Langs { langs: prev }, obj0, i as int) == spec_run(
                    toks,
                    StateV::Langs { langs: collected@ },
                    obj0,
                    i + 1,
                ));
            }
            i = i + 1;
        }
        // The tokens ran out inside the language list: the incomplete block
        // yields no class; the machine reports the classes finalized so far.
        if collected.len() == 0 {
            self.parse_state = ParseState::FILES;
            self.index = i;
            return Ok(());
        }
        let canon = canonical_languages(&collected);
        proof {
            lemma_canonical_langs(collected@);
            assert(collected@.contains(collected@[0]));
            assert(canonical_langs(collected@).contains(collected@[0]));
        }
        self.current_languages = Some(canon);
        self.parse_state = ParseState::CLASS;
        self.index = i;
        Ok(())
    }

    /// Take the next token verbatim as the name of a new class.
    fn handle_class(&mut self, tokens: &[String]) -> (r: Result<(), MError>)
        requires
            old(self).wf(),
            old(self).parse_state == ParseState::CLASS,
            old(self).index < tokens@.len(),
        ensures
            final(self).wf(),
            match r {
                Ok(()) => {
                    &&& old(self).index < final(self).index <= tokens@.len()
                    &&& old(self).objects.deep_view().is_prefix_of(
                        final(self).objects.deep_view(),
                    )
                    &&& spec_run(
                        tokens.deep_view(),
                        old(self).abs_state(),
                        old(self).objects.deep_view(),
                        old(self).index as int,
                    ) == spec_run(
                        tokens.deep_view(),
                        final(self).abs_state(),
                        final(self).objects.deep_view(),
                        final(self).index as int,
                    )
                },
                Err(e) => {
                    &&& final(self).objects == old(self).objects
                    &&& spec_run(
                        tokens.deep_view(),
                        old(self).abs_state(),
                        old(self).objects.deep_view(),
                        old(self).index as int,
                    ) == Err::<Seq<ClassV>, MErrorV>(e@)
                },
            },
    {
        let ghost toks = tokens.deep_view();
        let ghost i0 = self.index as int;
        proof {
            lemma_prefix_refl(self.objects.deep_view());
        }
        let token = tokens[self.index].clone();
        proof {
            assert(toks[i0] == token@);
        }
        let class = match &self.current_languages {
            Some(langs) => Class::new(token, langs.as_slice(), Access::UNDEFINED),
            None => unreached(),
        };
        self.current_class = Some(class);
        self.parse_state = ParseState::FieldT;
        self.index = self.index + 1;
        Ok(())
    }

    /// Consume `{`, or a token ending in `:` naming the next field.
    fn handle_field_t(&mut self, tokens: &[String]) -> (r: Result<(), MError>)
        requires
            old(self).wf(),
            old(self).parse_state == ParseState::FieldT,
            old(self).index < tokens@.len(),
        ensures
            final(self).wf(),
            match r {
                Ok(()) => {
                    &&& old(self).index < final(self).index <= tokens@.len()
                    &&& old(self).objects.deep_view().is_prefix_of(
                        final(self).objects.deep_view(),
                    )
                    &&& spec_run(
                        tokens.deep_view(),
                        old(self).abs_state(),
                        old(self).objects.deep_view(),
                        old(self).index as int,
                    ) == spec_run(
                        tokens.deep_view(),
                        final(self).abs_state(),
                        final(self).objects.deep_view(),
                        final(self).index as int,
                    )
                },
                Err(e) => {
                    &&& final(self).objects == old(self).objects
                    &&& spec_run(
                        tokens.deep_view(),
                        old(self).abs_state(),
                        old(self).objects.deep_view(),
                        old(self).index as int,
                    ) == Err::<Seq<ClassV>, MErrorV>(e@)
                },
            },
    {
        let ghost toks = tokens.deep_view();
        let ghost i0 = self.index as int;
        proof {
            lemma_prefix_refl(self.objects.deep_view());
        }
        let token = &tokens[self.index];
        proof {
            assert(toks[i0] == token@);
        }
        if str_eq(token.as_str(), "{") {
            self.index = self.index + 1;
            return Ok(());
        }
        let n = token.as_str().unicode_len();
        if n >= 2 && token.as_str().get_char(n - 1) == ':' {
            let name = strip_last(token.as_str());
            self.current_field_name = Some(name);
            self.parse_state = ParseState::FieldN;
            self.index = self.index + 1;
            Ok(())
        } else {
            let mut msg = String::from_str("Unknown token found. Expected field but found '");
            msg.append(token.as_str());
            msg.append("'");
            proof {
                assert(msg@ =~= "Unknown token found. Expected field but found '"@ + toks[i0]
                    + "'"@);
            }
            Err(MError::ParseError(msg))
        }
    }

    /// Consume a field type (appending the pending field to the class), or
    /// `}` finalizing the class.
    fn handle_field_n(&mut self, tokens: &[String]) -> (r: Result<(), MError>)
        requires
            old(self).wf(),
            old(self).parse_state == ParseState::FieldN,
            old(self).index < tokens@.len(),
        ensures
            final(self).wf(),
            match r {
                Ok(()) => {
                    &&& old(self).index < final(self).index <= tokens@.len()
                    &&& old(self).objects.deep_view().is_prefix_of(
                        final(self).objects.deep_view(),
                    )
                    &&& spec_run(
                        tokens.deep_view(),
                        old(self).abs_state(),
                        old(self).objects.deep_view(),
                        old(self).index as int,
                    ) == spec_run(
                        tokens.deep_view(),
                        final(self).abs_state(),
                        final(self).objects.deep_view(),
                        final(self).index as int,
                    )
                },
                Err(e) => {
                    &&& final(self).objects == old(self).objects
                    &&& spec_run(
                        tokens.deep_view(),
                        old(self).abs_state(),
                        old(self).objects.deep_view(),
                        old(self).index as int,
                    ) == Err::<Seq<ClassV>, MErrorV>(e@)
                },
            },
    {
        let ghost toks = tokens.deep_view();
        let ghost i0 = self.index as int;
        proof {
            lemma_prefix_refl(self.objects.deep_view());
        }
        let token = &tokens[self.index];
        proof {
            assert(toks[i0] == token@);
        }
        if str_eq(token.as_str(), "{") {
            return Err(
                MError::ParseError(String::from_str("Cannot have `{` as a field type.")),
            );
        }
        if str_eq(token.as_str(), "}") {
            let ghost obj0 = self.objects.deep_view();
            let class = self.take_current_class();
            proof {
                lemma_prefix_push(obj0, class.deep_view());
            }
            push_deep(&mut self.objects, class);
            self.parse_state = ParseState::FILES;
            self.current_field_name = None;
            self.index = self.index + 1;
            return Ok(());
        }
        let more = ends_with_char(token.as_str(), ',');
        let stripped: String = if more {
            strip_last(token.as_str())
        } else {
            token.clone()
        };
        let mut pending: Option<String> = None;
        mem::swap(&mut self.current_field_name, &mut pending);
        match pending {
            None => Err(
                MError::ParseError(
                    String::from_str("Error getting the value of the current field"),
                ),
            ),
            Some(name) => {
                let field_type = classify_type(stripped.as_str());
                let field = Field::new(name, field_type, Access::UNDEFINED);
                let mut class = self.take_current_class();
                class.add_field(field);
                self.current_class = Some(class);
                if more {
                    self.parse_state = ParseState::FieldT;
                }
                self.index = self.index + 1;
                Ok(())
            },
        }
    }
}

pub open spec fn count_tok(toks: Seq<Seq<char>>, n: int, target: Seq<char>) -> int
    decreases n,
{
    if n <= 0 {
        0
    } else {
        count_tok(toks, n - 1, target) + if toks[n - 1] == target {
            1int
        } else {
            0int
        }
    }
}

/// How many of the first `n` tokens are `{`.
pub open spec fn opens_upto(toks: Seq<Seq<char>>, n: int) -> int {
    count_tok(toks, n, "{"@)
}

/// How many of the first `n` tokens are `}`.
pub open spec fn closes_upto(toks: Seq<Seq<char>>, n: int) -> int {
    count_tok(toks, n, "}"@)
}

/// Balanced braces: no prefix closes more braces than it opened, and at the
/// end every opened brace is closed.
pub open spec fn brackets_balanced(toks: Seq<Seq<char>>) -> bool {
    &&& forall|k: int|
        0 <= k <= toks.len() ==> #[trigger] closes_upto(toks, k) <= opens_upto(toks, k)
    &&& closes_upto(toks, toks.len() as int) == opens_upto(toks, toks.len() as int)
}

/// Some prefix already closes more braces than it opened: an extra `}`.
pub open spec fn has_early_close(toks: Seq<Seq<char>>) -> bool {
    exists|k: int|
        0 <= k <= toks.len() && #[trigger] closes_upto(toks, k) > opens_upto(toks, k)
}

/// The error the validator reports for an unbalanced token sequence.
pub open spec fn bracket_error(toks: Seq<Seq<char>>) -> MErrorV {
    MErrorV::ParseError(
        if has_early_close(toks) {
            "File contains an extra `}`"@
        } else {
            "File contains an unmatched `{`"@
        },
    )
}

proof fn lemma_count_bounds(toks: Seq<Seq<char>>, n: int, target: Seq<char>)
    requires
        n >= 0,
    ensures
        0 <= count_tok(toks, n, target) <= n,
    decreases n,
{
    if n > 0 {
        lemma_count_bounds(toks, n - 1, target);
    }
}

/// Scan the tokens once, counting brace depth. Accepts exactly the balanced
/// sequences: every `}` must close an open `{`, and no `{` may stay open.
pub fn check_if_brackets_align(buf: &[String]) -> (r: Result<(), MError>)
    ensures
        match r {
            Ok(()) => brackets_balanced(buf.deep_view()),
            Err(e) => !brackets_balanced(buf.deep_view()) && e@ == bracket_error(buf.deep_view()),
        },
{
    let ghost toks = buf.deep_view();
    let mut depth: usize = 0;
    let mut n: usize = 0;
    while n < buf.len()
        invariant
            0 <= n <= buf@.len(),
            toks == buf.deep_view(),
            toks.len() == buf@.len(),
            depth <= n,
            depth as int == opens_upto(toks, n as int) - closes_upto(toks, n as int),
            forall|k: int| 0 <= k <= n ==> #[trigger] closes_upto(toks, k) <= opens_upto(toks, k),
        decreases buf@.len() - n,
    {
        let val = &buf[n];
        proof {
            assert(toks[n as int] == val@);
            lemma_count_bounds(toks, n as int, "{"@);
            lemma_count_bounds(toks, n as int, "}"@);
        }
        if str_eq(val.as_str(), "}") {
            proof {
                reveal_strlit("{");
                reveal_strlit("}");
                assert("{"@[0] == '{');
                assert("}"@[0] == '}');
                assert("}"@ != "{"@);
            }
            if depth == 0 {
                proof {
                    assert(closes_upto(toks, n + 1) > opens_upto(toks, n + 1));
                }
                return Err(MError::ParseError(String::from_str("File contains an extra `}`")));
            }
            depth = depth - 1;
        } else if str_eq(val.as_str(), "{") {
            depth = depth + 1;
        }
        n = n + 1;
    }
    if depth != 0 {
        proof {
            assert(closes_upto(toks, toks.len() as int) != opens_upto(toks, toks.len() as int));
        }
        return Err(MError::ParseError(String::from_str("File contains an unmatched `{`")));
    }
    Ok(())
}

} // verus!
