//! A parsed class: name, ordered fields, target languages and access level,
//! together with the per-language rendering of its field block.

use vstd::prelude::*;
use vstd::slice::slice_to_vec;

use crate::fields::{duplicate_field, Field, FieldV};
use crate::language::Language;
use crate::types::{Access, ArrayType, ArrayTypeV, FieldType, FieldTypeV};

verus! {

/// One class of the schema, as produced by the parser.
#[derive(Clone, Debug, PartialEq)]
pub struct Class {
    pub name: String,
    pub fields: Vec<Field>,
    pub languages: Vec<Language>,
    pub access: Access,
}

/// Mathematical view of `Class`.
#[verifier::ext_equal]
pub struct ClassV {
    pub name: Seq<char>,
    pub fields: Seq<FieldV>,
    pub languages: Seq<Language>,
    pub access: Access,
}

impl View for Class {
    type V = ClassV;

    open spec fn view(&self) -> ClassV {
        ClassV {
            name: self.name@,
            fields: self.fields.deep_view(),
            languages: self.languages@,
            access: self.access,
        }
    }
}

impl DeepView for Class {
    type V = ClassV;

    open spec fn deep_view(&self) -> ClassV {
        self.view()
    }
}

/// Access keyword preceding a Java or TypeScript member, if any.
pub open spec fn member_access_text(a: Access) -> Seq<char> {
    match a {
        Access::PUBLIC => "public "@,
        Access::PRIVATE => "private "@,
        Access::UNDEFINED => Seq::empty(),
    }
}

/// Visibility prefix of a Rust struct field or declaration.
pub open spec fn rust_access_text(a: Access) -> Seq<char> {
    match a {
        Access::PUBLIC => "pub "@,
        Access::PRIVATE => Seq::empty(),
        Access::UNDEFINED => Seq::empty(),
    }
}

/// Java rendering of a field type.
pub open spec fn java_type_text(t: FieldTypeV) -> Seq<char> {
    match t {
        FieldTypeV::STRING => "String"@,
        FieldTypeV::INTEGER => "int"@,
        FieldTypeV::DOUBLE => "double"@,
        FieldTypeV::CHAR => "char"@,
        FieldTypeV::BOOL => "boolean"@,
        FieldTypeV::CUSTOM(n) => n,
        FieldTypeV::ARRAY(e) => match e {
            ArrayTypeV::INTEGER => "int[]"@,
            ArrayTypeV::STRING => "String[]"@,
            ArrayTypeV::CHAR => "char[]"@,
            ArrayTypeV::DOUBLE => "double[]"@,
            ArrayTypeV::BOOL => "boolean[]"@,
            ArrayTypeV::CUSTOM(n) => n + "[]"@,
        },
        FieldTypeV::LIST(e) => match e {
            ArrayTypeV::INTEGER => "List<Integer>"@,
            ArrayTypeV::STRING => "List<String>"@,
            ArrayTypeV::CHAR => "List<Character>"@,
            ArrayTypeV::DOUBLE => "List<Double>"@,
            ArrayTypeV::BOOL => "List<Boolean>"@,
            ArrayTypeV::CUSTOM(n) => "List<"@ + n + ">"@,
        },
        FieldTypeV::UNDEFINED => Seq::empty(),
    }
}

/// TypeScript rendering of a field type.
pub open spec fn ts_type_text(t: FieldTypeV) -> Seq<char> {
    match t {
        FieldTypeV::STRING => "string"@,
        FieldTypeV::INTEGER => "number"@,
        FieldTypeV::DOUBLE => "number"@,
        FieldTypeV::CHAR => "string"@,
        FieldTypeV::BOOL => "boolean"@,
        FieldTypeV::CUSTOM(n) => n,
        FieldTypeV::ARRAY(e) => match e {
            ArrayTypeV::INTEGER => "number[]"@,
            ArrayTypeV::STRING => "string[]"@,
            ArrayTypeV::CHAR => "string[]"@,
            ArrayTypeV::DOUBLE => "number[]"@,
            ArrayTypeV::BOOL => "boolean[]"@,
            ArrayTypeV::CUSTOM(n) => n + "[]"@,
        },
        FieldTypeV::LIST(e) => match e {
            ArrayTypeV::INTEGER => "Array<number>"@,
            ArrayTypeV::STRING => "Array<string>"@,
            ArrayTypeV::CHAR => "Array<string>"@,
            ArrayTypeV::DOUBLE => "Array<number>"@,
            ArrayTypeV::BOOL => "Array<boolean>"@,
            ArrayTypeV::CUSTOM(n) => "Array<"@ + n + ">"@,
        },
        FieldTypeV::UNDEFINED => Seq::empty(),
    }
}

/// C rendering of a field type.
pub open spec fn c_type_text(t: FieldTypeV) -> Seq<char> {
    match t {
        FieldTypeV::STRING => "char*"@,
        FieldTypeV::INTEGER => "int"@,
        FieldTypeV::DOUBLE => "double"@,
        FieldTypeV::CHAR => "char"@,
        FieldTypeV::BOOL => "bool"@,
        FieldTypeV::CUSTOM(n) => "struct "@ + n,
        FieldTypeV::ARRAY(e) => match e {
            ArrayTypeV::INTEGER => "int*"@,
            ArrayTypeV::STRING => "char*"@,
            ArrayTypeV::CHAR => "char*"@,
            ArrayTypeV::DOUBLE => "double*"@,
            ArrayTypeV::BOOL => "bool*"@,
            ArrayTypeV::CUSTOM(n) => n + "*"@,
        },
        FieldTypeV::LIST(e) => match e {
            ArrayTypeV::INTEGER => "int*"@,
            ArrayTypeV::STRING => "char*"@,
            ArrayTypeV::CHAR => "char*"@,
            ArrayTypeV::DOUBLE => "double*"@,
            ArrayTypeV::BOOL => "bool*"@,
            ArrayTypeV::CUSTOM(n) => n + "*"@,
        },
        FieldTypeV::UNDEFINED => Seq::empty(),
    }
}

/// C++ rendering of a field type.
pub open spec fn cpp_type_text(t: FieldTypeV) -> Seq<char> {
    match t {
        FieldTypeV::STRING => "string"@,
        FieldTypeV::INTEGER => "int"@,
        FieldTypeV::DOUBLE => "double"@,
        FieldTypeV::CHAR => "char"@,
        FieldTypeV::BOOL => "boolean"@,
        FieldTypeV::CUSTOM(n) => n,
        FieldTypeV::ARRAY(e) => match e {
            ArrayTypeV::INTEGER => "int*"@,
            ArrayTypeV::STRING => "string*"@,
            ArrayTypeV::CHAR => "char*"@,
            ArrayTypeV::DOUBLE => "double*"@,
            ArrayTypeV::BOOL => "boolean*"@,
            ArrayTypeV::CUSTOM(n) => n + "*"@,
        },
        FieldTypeV::LIST(e) => match e {
            ArrayTypeV::INTEGER => "vector<int>"@,
            ArrayTypeV::STRING => "vector<string>"@,
            ArrayTypeV::CHAR => "vector<char>"@,
            ArrayTypeV::DOUBLE => "vector<double>"@,
            ArrayTypeV::BOOL => "vector<boolean>"@,
            ArrayTypeV::CUSTOM(n) => "vector<"@ + n + ">"@,
        },
        FieldTypeV::UNDEFINED => Seq::empty(),
    }
}

/// Rust rendering of a field type.
pub open spec fn rust_type_text(t: FieldTypeV) -> Seq<char> {
    match t {
        FieldTypeV::STRING => "String"@,
        FieldTypeV::INTEGER => "i32"@,
        FieldTypeV::DOUBLE => "f32"@,
        FieldTypeV::CHAR => "char"@,
        FieldTypeV::BOOL => "bool"@,
        FieldTypeV::CUSTOM(n) => n,
        FieldTypeV::ARRAY(e) => match e {
            ArrayTypeV::INTEGER => "[i32]"@,
            ArrayTypeV::STRING => "[String]"@,
            ArrayTypeV::CHAR => "[char]"@,
            ArrayTypeV::DOUBLE => "[f32]"@,
            ArrayTypeV::BOOL => "[bool]"@,
            ArrayTypeV::CUSTOM(n) => "["@ + n + "]"@,
        },
        FieldTypeV::LIST(e) => match e {
            ArrayTypeV::INTEGER => "Vec<i32>"@,
            ArrayTypeV::STRING => "Vec<String>"@,
            ArrayTypeV::CHAR => "Vec<char>"@,
            ArrayTypeV::DOUBLE => "Vec<f32>"@,
            ArrayTypeV::BOOL => "Vec<bool>"@,
            ArrayTypeV::CUSTOM(n) => "Vec<"@ + n + ">"@,
        },
        FieldTypeV::UNDEFINED => Seq::empty(),
    }
}

/// One Java member line.
pub open spec fn java_field_line(f: FieldV) -> Seq<char> {
    "\t"@ + member_access_text(f.access) + java_type_text(f.field_type) + " "@ + f.name + "; \n"@
}

/// One TypeScript member line.
pub open spec fn ts_field_line(f: FieldV) -> Seq<char> {
    "\t"@ + member_access_text(f.access) + f.name + ": "@ + ts_type_text(f.field_type) + "; \n"@
}

/// One C member line.
pub open spec fn c_field_line(f: FieldV) -> Seq<char> {
    "\t"@ + c_type_text(f.field_type) + " "@ + f.name + "; \n"@
}

/// One C++ member line.
pub open spec fn cpp_field_line(f: FieldV) -> Seq<char> {
    cpp_type_text(f.field_type) + " "@ + f.name + ";\n\t\t"@
}

/// One Rust field line.
pub open spec fn rust_field_line(f: FieldV) -> Seq<char> {
    "\n\t"@ + rust_access_text(f.access) + f.name + ": "@ + rust_type_text(f.field_type) + ","@
}

/// The concatenation of `line` over a field sequence.
pub open spec fn java_fields_text(fs: Seq<FieldV>) -> Seq<char>
    decreases fs.len(),
{
    if fs.len() == 0 {
        Seq::empty()
    } else {
        java_fields_text(fs.drop_last()) + java_field_line(fs.last())
    }
}

/// The concatenation of the TypeScript member lines.
pub open spec fn ts_fields_text(fs: Seq<FieldV>) -> Seq<char>
    decreases fs.len(),
{
    if fs.len() == 0 {
        Seq::empty()
    } else {
        ts_fields_text(fs.drop_last()) + ts_field_line(fs.last())
    }
}

/// The concatenation of the C member lines.
pub open spec fn c_fields_text(fs: Seq<FieldV>) -> Seq<char>
    decreases fs.len(),
{
    if fs.len() == 0 {
        Seq::empty()
    } else {
        c_fields_text(fs.drop_last()) + c_field_line(fs.last())
    }
}

/// The concatenation of the C++ member lines.
pub open spec fn cpp_fields_text(fs: Seq<FieldV>) -> Seq<char>
    decreases fs.len(),
{
    if fs.len() == 0 {
        Seq::empty()
    } else {
        cpp_fields_text(fs.drop_last()) + cpp_field_line(fs.last())
    }
}

/// The concatenation of the Rust field lines.
pub open spec fn rust_fields_text(fs: Seq<FieldV>) -> Seq<char>
    decreases fs.len(),
{
    if fs.len() == 0 {
        Seq::empty()
    } else {
        rust_fields_text(fs.drop_last()) + rust_field_line(fs.last())
    }
}

/// The whole C++ member block: a `public:` header, the member lines, and a
/// closing newline.
pub open spec fn cpp_fields_block(fs: Seq<FieldV>) -> Seq<char> {
    "\n \tpublic: \n \t \t"@ + cpp_fields_text(fs) + "\n"@
}

/// The whole Rust field block: the field lines and a closing newline.
pub open spec fn rust_fields_block(fs: Seq<FieldV>) -> Seq<char> {
    rust_fields_text(fs) + "\n"@
}

fn java_type_string(t: &FieldType) -> (r: String)
    ensures
        r@ == java_type_text(t@),
{
    match t {
        FieldType::STRING => String::from_str("String"),
        FieldType::INTEGER => String::from_str("int"),
        FieldType::DOUBLE => String::from_str("double"),
        FieldType::CHAR => String::from_str("char"),
        FieldType::BOOL => String::from_str("boolean"),
        FieldType::CUSTOM(n) => n.clone(),
        FieldType::ARRAY(ArrayType::INTEGER) => String::from_str("int[]"),
        FieldType::ARRAY(ArrayType::STRING) => String::from_str("String[]"),
        FieldType::ARRAY(ArrayType::CHAR) => String::from_str("char[]"),
        FieldType::ARRAY(ArrayType::DOUBLE) => String::from_str("double[]"),
        FieldType::ARRAY(ArrayType::BOOL) => String::from_str("boolean[]"),
        FieldType::ARRAY(ArrayType::CUSTOM(n)) => {
            let mut r = n.clone();
            r.append("[]");
            r
        },
        FieldType::LIST(ArrayType::INTEGER) => String::from_str("List<Integer>"),
        FieldType::LIST(ArrayType::STRING) => String::from_str("List<String>"),
        FieldType::LIST(ArrayType::CHAR) => String::from_str("List<Character>"),
        FieldType::LIST(ArrayType::DOUBLE) => String::from_str("List<Double>"),
        FieldType::LIST(ArrayType::BOOL) => String::from_str("List<Boolean>"),
        FieldType::LIST(ArrayType::CUSTOM(n)) => {
            let mut r = String::from_str("List<");
            r.append(n.as_str());
            r.append(">");
            r
        },
        FieldType::UNDEFINED => String::new(),
    }
}

fn ts_type_string(t: &FieldType) -> (r: String)
    ensures
        r@ == ts_type_text(t@),
{
    match t {
        FieldType::STRING => String::from_str("string"),
        FieldType::INTEGER => String::from_str("number"),
        FieldType::DOUBLE => String::from_str("number"),
        FieldType::CHAR => String::from_str("string"),
        FieldType::BOOL => String::from_str("boolean"),
        FieldType::CUSTOM(n) => n.clone(),
        FieldType::ARRAY(ArrayType::INTEGER) => String::from_str("number[]"),
        FieldType::ARRAY(ArrayType::STRING) => String::from_str("string[]"),
        FieldType::ARRAY(ArrayType::CHAR) => String::from_str("string[]"),
        FieldType::ARRAY(ArrayType::DOUBLE) => String::from_str("number[]"),
        FieldType::ARRAY(ArrayType::BOOL) => String::from_str("boolean[]"),
        FieldType::ARRAY(ArrayType::CUSTOM(n)) => {
            let mut r = n.clone();
            r.append("[]");
            r
        },
        FieldType::LIST(ArrayType::INTEGER) => String::from_str("Array<number>"),
        FieldType::LIST(ArrayType::STRING) => String::from_str("Array<string>"),
        FieldType::LIST(ArrayType::CHAR) => String::from_str("Array<string>"),
        FieldType::LIST(ArrayType::DOUBLE) => String::from_str("Array<number>"),
        FieldType::LIST(ArrayType::BOOL) => String::from_str("Array<boolean>"),
        FieldType::LIST(ArrayType::CUSTOM(n)) => {
            let mut r = String::from_str("Array<");
            r.append(n.as_str());
            r.append(">");
            r
        },
        FieldType::UNDEFINED => String::new(),
    }
}

fn c_type_string(t: &FieldType) -> (r: String)
    ensures
        r@ == c_type_text(t@),
{
    match t {
        FieldType::STRING => String::from_str("char*"),
        FieldType::INTEGER => String::from_str("int"),
        FieldType::DOUBLE => String::from_str("double"),
        FieldType::CHAR => String::from_str("char"),
        FieldType::BOOL => String::from_str("bool"),
        FieldType::CUSTOM(n) => {
            let mut r = String::from_str("struct ");
            r.append(n.as_str());
            r
        },
        FieldType::ARRAY(ArrayType::INTEGER) => String::from_str("int*"),
        FieldType::ARRAY(ArrayType::STRING) => String::from_str("char*"),
        FieldType::ARRAY(ArrayType::CHAR) => String::from_str("char*"),
        FieldType::ARRAY(ArrayType::DOUBLE) => String::from_str("double*"),
        FieldType::ARRAY(ArrayType::BOOL) => String::from_str("bool*"),
        FieldType::ARRAY(ArrayType::CUSTOM(n)) => {
            let mut r = n.clone();
            r.append("*");
            r
        },
        FieldType::LIST(ArrayType::INTEGER) => String::from_str("int*"),
        FieldType::LIST(ArrayType::STRING) => String::from_str("char*"),
        FieldType::LIST(ArrayType::CHAR) => String::from_str("char*"),
        FieldType::LIST(ArrayType::DOUBLE) => String::from_str("double*"),
        FieldType::LIST(ArrayType::BOOL) => String::from_str("bool*"),
        FieldType::LIST(ArrayType::CUSTOM(n)) => {
            let mut r = n.clone();
            r.append("*");
            r
        },
        FieldType::UNDEFINED => String::new(),
    }
}

fn cpp_type_string(t: &FieldType) -> (r: String)
    ensures
        r@ == cpp_type_text(t@),
{
    match t {
        FieldType::STRING => String::from_str("string"),
        FieldType::INTEGER => String::from_str("int"),
        FieldType::DOUBLE => String::from_str("double"),
        FieldType::CHAR => String::from_str("char"),
        FieldType::BOOL => String::from_str("boolean"),
        FieldType::CUSTOM(n) => n.clone(),
        FieldType::ARRAY(ArrayType::INTEGER) => String::from_str("int*"),
        FieldType::ARRAY(ArrayType::STRING) => String::from_str("string*"),
        FieldType::ARRAY(ArrayType::CHAR) => String::from_str("char*"),
        FieldType::ARRAY(ArrayType::DOUBLE) => String::from_str("double*"),
        FieldType::ARRAY(ArrayType::BOOL) => String::from_str("boolean*"),
        FieldType::ARRAY(ArrayType::CUSTOM(n)) => {
            let mut r = n.clone();
            r.append("*");
            r
        },
        FieldType::LIST(ArrayType::INTEGER) => String::from_str("vector<int>"),
        FieldType::LIST(ArrayType::STRING) => String::from_str("vector<string>"),
        FieldType::LIST(ArrayType::CHAR) => String::from_str("vector<char>"),
        FieldType::LIST(ArrayType::DOUBLE) => String::from_str("vector<double>"),
        FieldType::LIST(ArrayType::BOOL) => String::from_str("vector<boolean>"),
        FieldType::LIST(ArrayType::CUSTOM(n)) => {
            let mut r = String::from_str("vector<");
            r.append(n.as_str());
            r.append(">");
            r
        },
        FieldType::UNDEFINED => String::new(),
    }
}

fn rust_type_string(t: &FieldType) -> (r: String)
    ensures
        r@ == rust_type_text(t@),
{
    match t {
        FieldType::STRING => String::from_str("String"),
        FieldType::INTEGER => String::from_str("i32"),
        FieldType::DOUBLE => String::from_str("f32"),
        FieldType::CHAR => String::from_str("char"),
        FieldType::BOOL => String::from_str("bool"),
        FieldType::CUSTOM(n) => n.clone(),
        FieldType::ARRAY(ArrayType::INTEGER) => String::from_str("[i32]"),
        FieldType::ARRAY(ArrayType::STRING) => String::from_str("[String]"),
        FieldType::ARRAY(ArrayType::CHAR) => String::from_str("[char]"),
        FieldType::ARRAY(ArrayType::DOUBLE) => String::from_str("[f32]"),
        FieldType::ARRAY(ArrayType::BOOL) => String::from_str("[bool]"),
        FieldType::ARRAY(ArrayType::CUSTOM(n)) => {
            let mut r = String::from_str("[");
            r.append(n.as_str());
            r.append("]");
            r
        },
        FieldType::LIST(ArrayType::INTEGER) => String::from_str("Vec<i32>"),
        FieldType::LIST(ArrayType::STRING) => String::from_str("Vec<String>"),
        FieldType::LIST(ArrayType::CHAR) => String::from_str("Vec<char>"),
        FieldType::LIST(ArrayType::DOUBLE) => String::from_str("Vec<f32>"),
        FieldType::LIST(ArrayType::BOOL) => String::from_str("Vec<bool>"),
        FieldType::LIST(ArrayType::CUSTOM(n)) => {
            let mut r = String::from_str("Vec<");
            r.append(n.as_str());
            r.append(">");
            r
        },
        FieldType::UNDEFINED => String::new(),
    }
}

impl Class {
    /// Build an empty class from its name, target languages and access.
    pub fn new(name: String, languages: &[Language], access: Access) -> (c: Class)
        ensures
            c@ == (ClassV {
                name: name@,
                fields: Seq::<FieldV>::empty(),
                languages: languages@,
                access: access,
            }),
    {
        let c = Class { name, fields: Vec::new(), languages: slice_to_vec(languages), access };
        proof {
            assert(c.fields.deep_view() =~= Seq::<FieldV>::empty());
        }
        c
    }

    /// Append a field; fields keep their insertion order.
    pub fn add_field(&mut self, field: Field)
        ensures
            final(self)@ == (ClassV { fields: old(self)@.fields.push(field@), ..old(self)@ }),
    {
        self.fields.push(field);
        proof {
            assert(self.fields.deep_view() =~= old(self).fields.deep_view().push(field@));
        }
    }

    /// The class's name.
    pub fn get_name(&self) -> (r: String)
        ensures
            r@ == self@.name,
    {
        self.name.clone()
    }

    /// The class's access level.
    pub fn get_access(&self) -> (r: Access)
        ensures
            r == self@.access,
    {
        self.access
    }

    /// The Java member block of this class, one line per field, in stored
    /// field order.
    pub fn get_java_fields(&self) -> (r: String)
        ensures
            r@ == java_fields_text(self@.fields),
    {
        let ghost fv = self.fields.deep_view();
        let mut out = String::new();
        let mut n: usize = 0;
        proof {
            assert(fv.take(0) =~= Seq::<FieldV>::empty());
        }
        while n < self.fields.len()
            invariant
                0 <= n <= self.fields.len(),
                fv == self.fields.deep_view(),
                out@ == java_fields_text(fv.take(n as int)),
            decreases self.fields.len() - n,
        {
            let f = &self.fields[n];
            out.append("\t");
            match f.access {
                Access::PUBLIC => out.append("public "),
                Access::PRIVATE => out.append("private "),
                Access::UNDEFINED => (),
            }
            let ty = java_type_string(&f.field_type);
            out.append(ty.as_str());
            out.append(" ");
            out.append(f.name.as_str());
            out.append("; \n");
            proof {
                assert(fv.take(n + 1).drop_last() =~= fv.take(n as int));
                assert(fv.take(n + 1).last() == f@);
                assert(out@ =~= java_fields_text(fv.take(n + 1)));
            }
            n = n + 1;
        }
        proof {
            assert(fv.take(self.fields.len() as int) =~= fv);
        }
        out
    }

    /// The TypeScript member block of this class.
    pub fn get_ts_fields(&self) -> (r: String)
        ensures
            r@ == ts_fields_text(self@.fields),
    {
        let ghost fv = self.fields.deep_view();
        let mut out = String::new();
        let mut n: usize = 0;
        proof {
            assert(fv.take(0) =~= Seq::<FieldV>::empty());
        }
        while n < self.fields.len()
            invariant
                0 <= n <= self.fields.len(),
                fv == self.fields.deep_view(),
                out@ == ts_fields_text(fv.take(n as int)),
            decreases self.fields.len() - n,
        {
            let f = &self.fields[n];
            out.append("\t");
            match f.access {
                Access::PUBLIC => out.append("public "),
                Access::PRIVATE => out.append("private "),
                Access::UNDEFINED => (),
            }
            out.append(f.name.as_str());
            out.append(": ");
            let ty = ts_type_string(&f.field_type);
            out.append(ty.as_str());
            out.append("; \n");
            proof {
                assert(fv.take(n + 1).drop_last() =~= fv.take(n as int));
                assert(fv.take(n + 1).last() == f@);
                assert(out@ =~= ts_fields_text(fv.take(n + 1)));
            }
            n = n + 1;
        }
        proof {
            assert(fv.take(self.fields.len() as int) =~= fv);
        }
        out
    }

    /// The C member block of this class.
    pub fn get_c_fields(&self) -> (r: String)
        ensures
            r@ == c_fields_text(self@.fields),
    {
        let ghost fv = self.fields.deep_view();
        let mut out = String::new();
        let mut n: usize = 0;
        proof {
            assert(fv.take(0) =~= Seq::<FieldV>::empty());
        }
        while n < self.fields.len()
            invariant
                0 <= n <= self.fields.len(),
                fv == self.fields.deep_view(),
                out@ == c_fields_text(fv.take(n as int)),
            decreases self.fields.len() - n,
        {
            let f = &self.fields[n];
            out.append("\t");
            let ty = c_type_string(&f.field_type);
            out.append(ty.as_str());
            out.append(" ");
            out.append(f.name.as_str());
            out.append("; \n");
            proof {
                assert(fv.take(n + 1).drop_last() =~= fv.take(n as int));
                assert(fv.take(n + 1).last() == f@);
                assert(out@ =~= c_fields_text(fv.take(n + 1)));
            }
            n = n + 1;
        }
        proof {
            assert(fv.take(self.fields.len() as int) =~= fv);
        }
        out
    }

    /// The C++ member block of this class: every member sits under one
    /// `public:` header, whatever its own access level.
    pub fn get_cpp_fields(&self) -> (r: String)
        ensures
            r@ == cpp_fields_block(self@.fields),
    {
        let ghost fv = self.fields.deep_view();
        let mut out = String::from_str("\n \tpublic: \n \t \t");
        let mut n: usize = 0;
        proof {
            assert(fv.take(0) =~= Seq::<FieldV>::empty());
            assert(out@ =~= "\n \tpublic: \n \t \t"@ + cpp_fields_text(fv.take(0)));
        }
        while n < self.fields.len()
            invariant
                0 <= n <= self.fields.len(),
                fv == self.fields.deep_view(),
                out@ == "\n \tpublic: \n \t \t"@ + cpp_fields_text(fv.take(n as int)),
            decreases self.fields.len() - n,
        {
            let f = &self.fields[n];
            let ty = cpp_type_string(&f.field_type);
            out.append(ty.as_str());
            out.append(" ");
            out.append(f.name.as_str());
            out.append(";\n\t\t");
            proof {
                assert(fv.take(n + 1).drop_last() =~= fv.take(n as int));
                assert(fv.take(n + 1).last() == f@);
                assert(out@ =~= "\n \tpublic: \n \t \t"@ + cpp_fields_text(fv.take(n + 1)));
            }
            n = n + 1;
        }
        out.append("\n");
        proof {
            assert(fv.take(self.fields.len() as int) =~= fv);
            assert(out@ =~= cpp_fields_block(fv));
        }
        out
    }

    /// The Rust field block of this class: `pub` is emitted only for fields
    /// whose access level is public.
    pub fn get_rust_fields(&self) -> (r: String)
        ensures
            r@ == rust_fields_block(self@.fields),
    {
        let ghost fv = self.fields.deep_view();
        let mut out = String::new();
        let mut n: usize = 0;
        proof {
            assert(fv.take(0) =~= Seq::<FieldV>::empty());
        }
        while n < self.fields.len()
            invariant
                0 <= n <= self.fields.len(),
                fv == self.fields.deep_view(),
                out@ == rust_fields_text(fv.take(n as int)),
            decreases self.fields.len() - n,
        {
            let f = &self.fields[n];
            out.append("\n\t");
            match f.access {
                Access::PUBLIC => out.append("pub "),
                Access::PRIVATE => (),
                Access::UNDEFINED => (),
            }
            out.append(f.name.as_str());
            out.append(": ");
            let ty = rust_type_string(&f.field_type);
            out.append(ty.as_str());
            out.append(",");
            proof {
                assert(fv.take(n + 1).drop_last() =~= fv.take(n as int));
                assert(fv.take(n + 1).last() == f@);
                assert(out@ =~= rust_fields_text(fv.take(n + 1)));
            }
            n = n + 1;
        }
        out.append("\n");
        proof {
            assert(fv.take(self.fields.len() as int) =~= fv);
            assert(out@ =~= rust_fields_block(fv));
        }
        out
    }
}

/// A structural copy of `c` with an equal view (the derived `Clone` carries
/// no specification usable in proofs).
pub fn duplicate_class(c: &Class) -> (r: Class)
    ensures
        r@ == c@,
{
    let mut fields: Vec<Field> = Vec::new();
    let mut n: usize = 0;
    while n < c.fields.len()
        invariant
            0 <= n <= c.fields.len(),
            fields.deep_view() =~= c.fields.deep_view().take(n as int),
        decreases c.fields.len() - n,
    {
        let ghost prev_raw = fields@;
        let ghost prev_deep = fields.deep_view();
        let f = duplicate_field(&c.fields[n]);
        fields.push(f);
        proof {
            assert(fields@ == prev_raw.push(f));
            assert(prev_raw.len() == prev_deep.len() == n);
            assert forall|i: int| 0 <= i <= n implies fields.deep_view()[i]
                == c.fields.deep_view().take(n + 1)[i] by {
                if i < n {
                    assert(prev_raw.push(f)[i] == prev_raw[i]);
                    assert(prev_deep[i] == c.fields.deep_view()[i]);
                } else {
                    assert(prev_raw.push(f)[i] == f);
                }
            }
            assert(fields.deep_view() =~= c.fields.deep_view().take(n + 1));
        }
        n = n + 1;
    }
    let r = Class {
        name: c.name.clone(),
        fields,
        languages: slice_to_vec(c.languages.as_slice()),
        access: c.access,
    };
    proof {
        assert(c.fields.deep_view().take(c.fields.len() as int) =~= c.fields.deep_view());
        assert(r@ =~= c@);
    }
    r
}

} // verus!
