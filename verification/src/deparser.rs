//! Rendering parsed classes into per-language source declarations: one
//! output text per (class, language) pair, in deterministic order.

use vstd::prelude::*;

use crate::class::{
    c_fields_text, cpp_fields_block, java_fields_text, rust_access_text, rust_fields_block,
    ts_fields_text, Class, ClassV,
};
use crate::language::Language;
use crate::types::Access;
use crate::util::push_deep;

verus! {

/// One generated output: the file name it is destined for, and its text.
/// Writing it out belongs to the caller.
#[derive(Clone, Debug, PartialEq, Eq)]
pub struct GenFile {
    pub name: String,
    pub content: String,
}

/// Mathematical view of `GenFile`.
#[verifier::ext_equal]
pub struct GenFileV {
    pub name: Seq<char>,
    pub content: Seq<char>,
}

impl View for GenFile {
    type V = GenFileV;

    open spec fn view(&self) -> GenFileV {
        GenFileV { name: self.name@, content: self.content@ }
    }
}

impl DeepView for GenFile {
    type V = GenFileV;

    open spec fn deep_view(&self) -> GenFileV {
        self.view()
    }
}

/// The output file extension for a language.
pub open spec fn extension_text(l: Language) -> Seq<char> {
    match l {
        Language::JAVA => ".java"@,
        Language::TYPESCRIPT => ".ts"@,
        Language::C => ".c"@,
        Language::CPP => ".cpp"@,
        Language::RUST => ".rs"@,
    }
}

/// Class-level access keyword of a Java or TypeScript declaration.
pub open spec fn class_access_text(a: Access) -> Seq<char> {
    match a {
        Access::PRIVATE => "private "@,
        Access::PUBLIC => "public "@,
        Access::UNDEFINED => Seq::empty(),
    }
}

/// The Java declaration of a class.
pub open spec fn java_class_text(c: ClassV) -> Seq<char> {
    class_access_text(c.access) + "class "@ + c.name + " { \n"@ + java_fields_text(c.fields)
        + "} \n \n"@
}

/// The TypeScript declaration of a class.
pub open spec fn ts_class_text(c: ClassV) -> Seq<char> {
    class_access_text(c.access) + "class "@ + c.name + " { \n"@ + ts_fields_text(c.fields)
        + "} \n \n"@
}

/// The C declaration of a class: a typedef struct.
pub open spec fn c_struct_text(c: ClassV) -> Seq<char> {
    "typedef struct "@ + c.name + " { \n"@ + c_fields_text(c.fields) + "} "@ + c.name + ";\n \n"@
}

/// The C++ declaration of a class: all members under one `public:` block.
pub open spec fn cpp_class_text(c: ClassV) -> Seq<char> {
    "class "@ + c.name + " {"@ + cpp_fields_block(c.fields) + "}; \n \n"@
}

/// The Rust declaration of a class: a struct, `pub` when the class itself
/// is public.
pub open spec fn rust_struct_text(c: ClassV) -> Seq<char> {
    rust_access_text(c.access) + "struct "@ + c.name + " { "@ + rust_fields_block(c.fields)
        + "}\n \n "@
}

/// The text generated for class `c` in language `l`.
pub open spec fn render_text(c: ClassV, l: Language) -> Seq<char> {
    match l {
        Language::JAVA => java_class_text(c),
        Language::TYPESCRIPT => ts_class_text(c),
        Language::C => c_struct_text(c),
        Language::CPP => cpp_class_text(c),
        Language::RUST => rust_struct_text(c),
    }
}

/// The output file name for class `c` in language `l`.
pub open spec fn file_name_text(c: ClassV, l: Language) -> Seq<char> {
    c.name + extension_text(l)
}

/// The outputs of one class over a language list, in list order.
pub open spec fn class_outputs(c: ClassV, langs: Seq<Language>) -> Seq<GenFileV>
    decreases langs.len(),
{
    if langs.len() == 0 {
        Seq::empty()
    } else {
        class_outputs(c, langs.drop_last()).push(
            GenFileV {
                name: file_name_text(c, langs.last()),
                content: render_text(c, langs.last()),
            },
        )
    }
}

/// All outputs of a class collection: classes in collection order, each
/// class's languages in stored order.
pub open spec fn gen_outputs(classes: Seq<ClassV>) -> Seq<GenFileV>
    decreases classes.len(),
{
    if classes.len() == 0 {
        Seq::empty()
    } else {
        gen_outputs(classes.drop_last()) + class_outputs(
            classes.last(),
            classes.last().languages,
        )
    }
}

/// Render the Java declaration of `class`.
pub fn construct_java_class(class: &Class) -> (r: String)
    ensures
        r@ == java_class_text(class@),
{
    let mut output = String::new();
    match class.access {
        Access::PRIVATE => output.append("private "),
        Access::PUBLIC => output.append("public "),
        Access::UNDEFINED => (),
    }
    output.append("class ");
    output.append(class.name.as_str());
    output.append(" { \n");
    let class_fields = class.get_java_fields();
    output.append(class_fields.as_str());
    output.append("} \n \n");
    proof {
        assert(output@ =~= java_class_text(class@));
    }
    output
}

/// Render the TypeScript declaration of `class`.
pub fn construct_ts_class(class: &Class) -> (r: String)
    ensures
        r@ == ts_class_text(class@),
{
    let mut output = String::new();
    match class.access {
        Access::PRIVATE => output.append("private "),
        Access::PUBLIC => output.append("public "),
        Access::UNDEFINED => (),
    }
    output.append("class ");
    output.append(class.name.as_str());
    output.append(" { \n");
    let class_fields = class.get_ts_fields();
    output.append(class_fields.as_str());
    output.append("} \n \n");
    proof {
        assert(output@ =~= ts_class_text(class@));
    }
    output
}

/// Render the C declaration of `class`.
pub fn construct_c_structs(class: &Class) -> (r: String)
    ensures
        r@ == c_struct_text(class@),
{
    let mut output = String::from_str("typedef struct ");
    output.append(class.name.as_str());
    output.append(" { \n");
    let class_fields = class.get_c_fields();
    output.append(class_fields.as_str());
    output.append("} ");
    output.append(class.name.as_str());
    output.append(";\n \n");
    proof {
        assert(output@ =~= c_struct_text(class@));
    }
    output
}

/// Render the C++ declaration of `class`.
pub fn construct_cpp_class(class: &Class) -> (r: String)
    ensures
        r@ == cpp_class_text(class@),
{
    let mut output = String::from_str("class ");
    output.append(class.name.as_str());
    output.append(" {");
    let class_fields = class.get_cpp_fields();
    output.append(class_fields.as_str());
    output.append("}; \n \n");
    proof {
        assert(output@ =~= cpp_class_text(class@));
    }
    output
}

/// Render the Rust declaration of `class`.
pub fn construct_rust_structs(class: &Class) -> (r: String)
    ensures
        r@ == rust_struct_text(class@),
{
    let mut output = String::new();
    match class.access {
        Access::PUBLIC => output.append("pub "),
        Access::PRIVATE => (),
        Access::UNDEFINED => (),
    }
    output.append("struct ");
    output.append(class.name.as_str());
    output.append(" { ");
    let class_fields = class.get_rust_fields();
    output.append(class_fields.as_str());
    output.append("}\n \n ");
    proof {
        assert(output@ =~= rust_struct_text(class@));
    }
    output
}

/// Turns finalized classes into one output text per (class, language) pair.
pub struct DeParser {
    pub objects: Vec<Class>,
}

impl DeParser {
    /// Wrap a finalized class collection.
    pub fn new(objects: Vec<Class>) -> (d: DeParser)
        ensures
            d.objects.deep_view() == objects.deep_view(),
    {
        DeParser { objects }
    }

    /// Produce every output, classes in collection order and languages in
    /// each class's stored order. A pure function of the classes: rendering
    /// the same collection twice yields identical outputs.
    #[verifier::loop_isolation(false)]
    pub fn construct(&self) -> (r: Vec<GenFile>)
        ensures
            r.deep_view() == gen_outputs(self.objects.deep_view()),
    {
        let ghost objs = self.objects.deep_view();
        let mut out: Vec<GenFile> = Vec::new();
        let mut x: usize = 0;
        proof {
            assert(out.deep_view() =~= gen_outputs(objs.take(0)));
        }
        while x < self.objects.len()
            invariant
                0 <= x <= self.objects@.len(),
                out.deep_view() == gen_outputs(objs.take(x as int)),
            decreases self.objects@.len() - x,
        {
            let current = &self.objects[x];
            let mut y: usize = 0;
            proof {
                assert(current@.languages.take(0) =~= Seq::<Language>::empty());
                assert(out.deep_view() =~= gen_outputs(objs.take(x as int)) + class_outputs(
                    current@,
                    current@.languages.take(0),
                ));
            }
            while y < current.languages.len()
                invariant
                    0 <= y <= current.languages@.len(),
                    out.deep_view() == gen_outputs(objs.take(x as int)) + class_outputs(
                        current@,
                        current@.languages.take(y as int),
                    ),
                decreases current.languages@.len() - y,
            {
                let language = current.languages[y];
                let mut file_name = current.get_name();
                let output: String;
                match language {
                    Language::JAVA => {
                        output = construct_java_class(current);
                        file_name.append(".java");
                    },
                    Language::TYPESCRIPT => {
                        output = construct_ts_class(current);
                        file_name.append(".ts");
                    },
                    Language::C => {
                        output = construct_c_structs(current);
                        file_name.append(".c");
                    },
                    Language::CPP => {
                        output = construct_cpp_class(current);
                        file_name.append(".cpp");
                    },
                    Language::RUST => {
                        output = construct_rust_structs(current);
                        file_name.append(".rs");
                    },
                }
                push_deep(&mut out, GenFile { name: file_name, content: output });
                proof {
                    assert(current@.languages.take(y + 1).drop_last() =~= current@.languages.take(
                        y as int,
                    ));
                    assert(current@.languages.take(y + 1).last() == current@.languages[y as int]);
                    assert(out.deep_view() =~= gen_outputs(objs.take(x as int)) + class_outputs(
                        current@,
                        current@.languages.take(y + 1),
                    ));
                }
                y = y + 1;
            }
            proof {
                assert(current@.languages.take(current.languages@.len() as int)
                    =~= current@.languages);
                assert(objs.take(x + 1).drop_last() =~= objs.take(x as int));
                assert(objs.take(x + 1).last() == current@);
                assert(out.deep_view() =~= gen_outputs(objs.take(x + 1)));
            }
            x = x + 1;
        }
        proof {
            assert(objs.take(self.objects@.len() as int) =~= objs);
        }
        out
    }
}

} // verus!
