use vstd::prelude::*;
use vstd::string::*;

use crate::backend::Backend;
use crate::error::Error;
use crate::naming::{has_struct_markers, has_struct_name_markers};

verus! {

/// Scalar types.
#[derive(Clone, Copy, Debug, PartialEq, Eq, Structural)]
pub enum ElemType {
    /// Signed 8 bit integer
    I8,
    /// Signed 16 bit integer
    I16,
    /// Signed 32 bit integer
    I32,
    /// Signed 64 bit integer
    I64,
    /// Unsigned 8 bit integer
    U8,
    /// Unsigned 16 bit integer
    U16,
    /// Unsigned 32 bit integer
    U32,
    /// Unsigned 64 bit integer
    U64,
    /// 16 bit float
    F16,
    /// 32 bit float
    F32,
    /// 64 bit float
    F64,
    /// Boolean
    Bool,
}

impl ElemType {
    /// The name of a scalar type, as written in a manifest.
    pub open spec fn spec_name(self) -> Seq<char> {
        match self {
            ElemType::I8 => "i8"@,
            ElemType::I16 => "i16"@,
            ElemType::I32 => "i32"@,
            ElemType::I64 => "i64"@,
            ElemType::U8 => "u8"@,
            ElemType::U16 => "u16"@,
            ElemType::U32 => "u32"@,
            ElemType::U64 => "u64"@,
            ElemType::F16 => "f16"@,
            ElemType::F32 => "f32"@,
            ElemType::F64 => "f64"@,
            ElemType::Bool => "bool"@,
        }
    }

    pub fn to_str(&self) -> (r: &'static str)
        ensures
            r@ == self.spec_name(),
    {
        match self {
            ElemType::I8 => "i8",
            ElemType::I16 => "i16",
            ElemType::I32 => "i32",
            ElemType::I64 => "i64",
            ElemType::U8 => "u8",
            ElemType::U16 => "u16",
            ElemType::U32 => "u32",
            ElemType::U64 => "u64",
            ElemType::F16 => "f16",
            ElemType::F32 => "f32",
            ElemType::F64 => "f64",
            ElemType::Bool => "bool",
        }
    }
}

/// Whether `s` names one of the scalar types.
pub open spec fn is_scalar_name(s: Seq<char>) -> bool {
    exists|e: ElemType| e.spec_name() == s
}

/// An output of an entry point.
#[derive(Clone, Debug)]
pub struct Output {
    pub ty: String,
    pub unique: bool,
}

/// An input of an entry point.
#[derive(Clone, Debug)]
pub struct Input {
    pub name: String,
    pub ty: String,
    pub unique: bool,
}

/// An entry point: one foreign call with ordered inputs and outputs.
#[derive(Clone, Debug)]
pub struct Entry {
    pub cfun: String,
    pub outputs: Vec<Output>,
    pub inputs: Vec<Input>,
    pub tuning_params: Vec<String>,
}

/// The foreign operations on an array type.
#[derive(Clone, Debug)]
pub struct ArrayOps {
    pub free: String,
    pub index: String,
    pub new: String,
    pub shape: String,
    pub values: String,
}

/// A dense array of scalars.
#[derive(Clone, Debug)]
pub struct ArrayType {
    pub ctype: String,
    pub rank: usize,
    pub elemtype: ElemType,
    pub ops: ArrayOps,
}

/// The foreign operations on an opaque type.
#[derive(Clone, Debug)]
pub struct OpaqueOps {
    pub free: String,
    pub store: String,
    pub restore: String,
}

/// A field of a record, or of a record array.
#[derive(Clone, Debug)]
pub struct Field {
    pub name: String,
    pub project: String,
    pub ty: String,
}

/// A type whose foreign representation is not inspectable.
#[derive(Clone, Debug)]
pub struct OpaqueType {
    pub ctype: String,
    pub ops: OpaqueOps,
    pub options: OpaqueOptions,
}

#[derive(Clone, Debug)]
pub struct Record {
    pub new: String,
    pub fields: Vec<Field>,
}

#[derive(Clone, Debug)]
pub struct Variant {
    pub construct: String,
    pub destruct: String,
    pub payload: Vec<String>,
}

#[derive(Clone, Debug)]
pub struct Sum {
    pub variant: String,
    pub variants: Vec<Variant>,
}

#[derive(Clone, Debug)]
pub struct RecordArray {
    pub zip: String,
    pub fields: Vec<Field>,
}

/// An array whose elements are not scalars.
#[derive(Clone, Debug)]
pub struct OpaqueArray {
    pub rank: usize,
    pub elemtype: String,
    pub index: String,
    pub shape: String,
    pub record: Option<RecordArray>,
}

/// The four shapes of an opaque type.
#[derive(Clone, Debug)]
pub enum OpaqueOptions {
    Record(Record),
    Sum(Sum),
    OpaqueArray(OpaqueArray),
    RecordArray(OpaqueArray),
}

/// A type of the manifest.
#[derive(Clone, Debug)]
pub enum Type {
    Array(ArrayType),
    Opaque(OpaqueType),
}

impl Type {
    pub open spec fn spec_ctype(self) -> Seq<char> {
        match self {
            Type::Array(a) => a.ctype@,
            Type::Opaque(o) => o.ctype@,
        }
    }

    /// The foreign name of the type.
    pub fn ctype(&self) -> (r: &str)
        ensures
            r@ == self.spec_ctype(),
    {
        match self {
            Type::Array(a) => a.ctype.as_str(),
            Type::Opaque(o) => o.ctype.as_str(),
        }
    }
}

/// The interface of a compiled library: its entry points and its types,
/// each list in the manifest's own order.
#[derive(Clone, Debug)]
pub struct Manifest {
    pub backend: Backend,
    pub version: String,
    pub entry_points: Vec<(String, Entry)>,
    pub types: Vec<(String, Type)>,
}

/// Whether `i` is the first position of `types` whose key is `name`.
pub open spec fn first_key_at(types: Seq<(String, Type)>, name: Seq<char>, i: int) -> bool {
    &&& 0 <= i < types.len()
    &&& types[i].0@ == name
    &&& forall|j: int| 0 <= j < i ==> types[j].0@ != name
}

/// The position of the first type whose key is `name`, if any.
pub open spec fn find_type(m: Manifest, name: Seq<char>) -> Option<int> {
    if exists|i: int| first_key_at(m.types@, name, i) {
        Some(choose|i: int| first_key_at(m.types@, name, i))
    } else {
        None
    }
}

/// Whether `name` is a key of the type map.
pub open spec fn has_type(m: Manifest, name: Seq<char>) -> bool {
    exists|i: int| 0 <= i < m.types@.len() && m.types@[i].0@ == name
}

/// Whether `name` is a scalar type or a key of the type map.
pub open spec fn resolves(m: Manifest, name: Seq<char>) -> bool {
    is_scalar_name(name) || has_type(m, name)
}

/// Whether each field's type resolves.
pub open spec fn fields_resolve(m: Manifest, fields: Seq<Field>) -> bool {
    forall|k: int| 0 <= k < fields.len() ==> resolves(m, #[trigger] fields[k].ty@)
}

/// Whether each field's type is a key of the type map.
pub open spec fn fields_are_types(m: Manifest, fields: Seq<Field>) -> bool {
    forall|k: int| 0 <= k < fields.len() ==> has_type(m, #[trigger] fields[k].ty@)
}

/// Whether every type that a type of the manifest refers to can be found.
pub open spec fn type_refs_resolve(m: Manifest, t: Type) -> bool {
    match t {
        Type::Array(_) => true,
        Type::Opaque(o) => match o.options {
            OpaqueOptions::Record(r) => fields_resolve(m, r.fields@),
            OpaqueOptions::Sum(_) => true,
            OpaqueOptions::OpaqueArray(a) | OpaqueOptions::RecordArray(a) => {
                &&& has_type(m, a.elemtype@)
                &&& match a.record {
                    Some(r) => fields_are_types(m, r.fields@),
                    None => true,
                }
            },
        },
    }
}

/// Whether every output and input of an entry point has a known type.
pub open spec fn entry_refs_resolve(m: Manifest, e: Entry) -> bool {
    &&& forall|k: int| 0 <= k < e.outputs@.len() ==> resolves(m, #[trigger] e.outputs@[k].ty@)
    &&& forall|k: int| 0 <= k < e.inputs@.len() ==> resolves(m, #[trigger] e.inputs@[k].ty@)
}

/// Whether every type reference of the manifest is a scalar type or a key of
/// the type map.
pub open spec fn refs_resolve(m: Manifest) -> bool {
    &&& forall|i: int| 0 <= i < m.types@.len() ==> type_refs_resolve(m, #[trigger] m.types@[i].1)
    &&& forall|i: int|
        0 <= i < m.entry_points@.len() ==> entry_refs_resolve(m, #[trigger] m.entry_points@[i].1)
}

impl Manifest {
    /// The position of the first type whose key is `name`, if any.
    pub fn position_of_type(&self, name: &str) -> (r: Option<usize>)
        ensures
            r matches Some(i) ==> first_key_at(self.types@, name@, i as int) && find_type(
                *self,
                name@,
            ) == Some(i as int),
            r is None ==> !has_type(*self, name@) && find_type(*self, name@) is None,
    {
        let mut i: usize = 0;
        while i < self.types.len()
            invariant
                i <= self.types@.len(),
                forall|j: int| 0 <= j < i ==> self.types@[j].0@ != name@,
            decreases self.types@.len() - i,
        {
            if same_text(self.types[i].0.as_str(), name) {
                proof {
                    assert(first_key_at(self.types@, name@, i as int));
                    lemma_first_key_unique(self.types@, name@, i as int);
                }
                return Some(i);
            }
            i = i + 1;
        }
        None
    }
}

impl Manifest {
    /// Whether `name` is a key of the type map.
    pub fn has_type_named(&self, name: &str) -> (r: bool)
        ensures
            r == has_type(*self, name@),
    {
        self.position_of_type(name).is_some()
    }

    /// Whether `name` is a scalar type or a key of the type map.
    pub fn resolves_name(&self, name: &str) -> (r: bool)
        ensures
            r == resolves(*self, name@),
    {
        is_scalar(name) || self.has_type_named(name)
    }

    fn check_fields(&self, fields: &Vec<Field>, types_only: bool) -> (r: Result<(), Error>)
        ensures
            r is Ok == (if types_only {
                fields_are_types(*self, fields@)
            } else {
                fields_resolve(*self, fields@)
            }),
            r is Err ==> r matches Err(Error::UnknownType(_)),
            r matches Err(Error::UnknownType(s)) ==> !has_type(*self, s@),
    {
        let mut k: usize = 0;
        while k < fields.len()
            invariant
                k <= fields@.len(),
                forall|j: int|
                    0 <= j < k ==> if types_only {
                        has_type(*self, #[trigger] fields@[j].ty@)
                    } else {
                        resolves(*self, #[trigger] fields@[j].ty@)
                    },
            decreases fields@.len() - k,
        {
            let t = fields[k].ty.as_str();
            let ok = if types_only {
                self.has_type_named(t)
            } else {
                self.resolves_name(t)
            };
            if !ok {
                return Err(Error::UnknownType(fields[k].ty.clone()));
            }
            k = k + 1;
        }
        Ok(())
    }

    fn check_type(&self, t: &Type) -> (r: Result<(), Error>)
        ensures
            r is Ok == type_refs_resolve(*self, *t),
            r is Err ==> r matches Err(Error::UnknownType(_)),
            r matches Err(Error::UnknownType(s)) ==> !has_type(*self, s@),
    {
        match t {
            Type::Array(_) => Ok(()),
            Type::Opaque(o) => match &o.options {
                OpaqueOptions::Record(r) => {
                    self.check_fields(&r.fields, false)
                },
                OpaqueOptions::Sum(_) => Ok(()),
                OpaqueOptions::OpaqueArray(a) | OpaqueOptions::RecordArray(a) => {
                    if !self.has_type_named(a.elemtype.as_str()) {
                        return Err(Error::UnknownType(a.elemtype.clone()));
                    }
                    match &a.record {
                        Some(r) => self.check_fields(&r.fields, true),
                        None => Ok(()),
                    }
                },
            },
        }
    }

    fn check_entry(&self, e: &Entry) -> (r: Result<(), Error>)
        ensures
            r is Ok == entry_refs_resolve(*self, *e),
            r is Err ==> r matches Err(Error::UnknownType(_)),
            r matches Err(Error::UnknownType(s)) ==> !resolves(*self, s@),
    {
        let mut k: usize = 0;
        while k < e.outputs.len()
            invariant
                k <= e.outputs@.len(),
                forall|j: int| 0 <= j < k ==> resolves(*self, #[trigger] e.outputs@[j].ty@),
            decreases e.outputs@.len() - k,
        {
            if !self.resolves_name(e.outputs[k].ty.as_str()) {
                return Err(Error::UnknownType(e.outputs[k].ty.clone()));
            }
            k = k + 1;
        }
        let mut k: usize = 0;
        while k < e.inputs.len()
            invariant
                k <= e.inputs@.len(),
                forall|j: int| 0 <= j < e.outputs@.len() ==> resolves(*self, #[trigger] e.outputs@[j].ty@),
                forall|j: int| 0 <= j < k ==> resolves(*self, #[trigger] e.inputs@[j].ty@),
            decreases e.inputs@.len() - k,
        {
            if !self.resolves_name(e.inputs[k].ty.as_str()) {
                return Err(Error::UnknownType(e.inputs[k].ty.clone()));
            }
            k = k + 1;
        }
        Ok(())
    }

    /// Checks that every type reference of the manifest is a scalar type or a
    /// key of the type map; the error names the first one that is neither.
    pub fn check_refs(&self) -> (r: Result<(), Error>)
        ensures
            r is Ok == refs_resolve(*self),
            r is Err ==> r matches Err(Error::UnknownType(_)),
            r matches Err(Error::UnknownType(s)) ==> !has_type(*self, s@),
    {
        let mut i: usize = 0;
        while i < self.types.len()
            invariant
                i <= self.types@.len(),
                forall|j: int| 0 <= j < i ==> type_refs_resolve(*self, #[trigger] self.types@[j].1),
            decreases self.types@.len() - i,
        {
            let res = self.check_type(&self.types[i].1);
            if res.is_err() {
                return res;
            }
            i = i + 1;
        }
        let mut i: usize = 0;
        while i < self.entry_points.len()
            invariant
                i <= self.entry_points@.len(),
                forall|j: int| 0 <= j < self.types@.len() ==> type_refs_resolve(*self, #[trigger] self.types@[j].1),
                forall|j: int| 0 <= j < i ==> entry_refs_resolve(*self, #[trigger] self.entry_points@[j].1),
            decreases self.entry_points@.len() - i,
        {
            let res = self.check_entry(&self.entry_points[i].1);
            if res.is_err() {
                return res;
            }
            i = i + 1;
        }
        Ok(())
    }
}

/// Whether no two items of `v` share a key.
pub open spec fn distinct_keys<T>(v: Seq<(String, T)>) -> bool {
    forall|a: int, b: int| 0 <= a < b < v.len() ==> v[a].0@ != v[b].0@
}

/// Whether the type map and the entry-point map each have distinct keys, as
/// the maps of a manifest document do.
pub open spec fn keys_distinct(m: Manifest) -> bool {
    &&& distinct_keys(m.types@)
    &&& distinct_keys(m.entry_points@)
}

/// The position of the first item of `v` whose key repeats an earlier key.
fn repeated_key<T>(v: &Vec<(String, T)>) -> (r: Option<usize>)
    ensures
        r is None == distinct_keys(v@),
        r matches Some(j) ==> j < v@.len() && exists|a: int| 0 <= a < j && v@[a].0@ == v@[j as int].0@,
{
    let mut j: usize = 0;
    while j < v.len()
        invariant
            j <= v@.len(),
            forall|a: int, b: int| 0 <= a < b < j ==> v@[a].0@ != v@[b].0@,
        decreases v@.len() - j,
    {
        let mut a: usize = 0;
        while a < j
            invariant
                a <= j < v@.len(),
                forall|x: int, y: int| 0 <= x < y < j ==> v@[x].0@ != v@[y].0@,
                forall|x: int| 0 <= x < a ==> v@[x].0@ != v@[j as int].0@,
            decreases j - a,
        {
            if same_text(v[a].0.as_str(), v[j].0.as_str()) {
                return Some(j);
            }
            a = a + 1;
        }
        j = j + 1;
    }
    None
}

impl Manifest {
    /// Checks that no two types and no two entry points share a key; the
    /// error names a repeated key.
    pub fn check_keys(&self) -> (r: Result<(), Error>)
        ensures
            r is Ok == keys_distinct(*self),
            r is Err ==> r matches Err(Error::DuplicateKey(_)),
            r matches Err(Error::DuplicateKey(k)) ==> (exists|a: int, b: int|
                0 <= a < b < self.types@.len() && self.types@[a].0@ == k@ && self.types@[b].0@
                    == k@) || (exists|a: int, b: int|
                0 <= a < b < self.entry_points@.len() && self.entry_points@[a].0@ == k@
                    && self.entry_points@[b].0@ == k@),
    {
        if let Some(j) = repeated_key(&self.types) {
            return Err(Error::DuplicateKey(self.types[j].0.clone()));
        }
        if let Some(j) = repeated_key(&self.entry_points) {
            return Err(Error::DuplicateKey(self.entry_points[j].0.clone()));
        }
        Ok(())
    }
}

impl Manifest {
    /// Checks that every foreign type name carries the `struct` and `*`
    /// markers; the error names the first that does not.
    pub fn check_struct_names(&self) -> (r: Result<(), Error>)
        ensures
            r is Ok == struct_names_ok(*self),
            r is Err ==> r matches Err(Error::MissingMarker(_)),
            r matches Err(Error::MissingMarker(t)) ==> !has_struct_markers(t@) && exists|i: int|
                0 <= i < self.types@.len() && self.types@[i].1.spec_ctype() == t@,
    {
        let mut i: usize = 0;
        while i < self.types.len()
            invariant
                i <= self.types@.len(),
                forall|j: int| 0 <= j < i ==> has_struct_markers(#[trigger] self.types@[j].1.spec_ctype()),
            decreases self.types@.len() - i,
        {
            let c = self.types[i].1.ctype();
            if !has_struct_name_markers(c) {
                return Err(Error::MissingMarker(c.to_owned()));
            }
            i = i + 1;
        }
        Ok(())
    }
}

/// Whether every foreign type name of `m` carries the `struct` and `*` markers.
pub open spec fn struct_names_ok(m: Manifest) -> bool {
    forall|i: int| 0 <= i < m.types@.len() ==> has_struct_markers(#[trigger] m.types@[i].1.spec_ctype())
}

/// At most one position is the first with a given key.
pub proof fn lemma_first_key_unique(types: Seq<(String, Type)>, name: Seq<char>, i: int)
    requires
        first_key_at(types, name, i),
    ensures
        forall|j: int| first_key_at(types, name, j) ==> j == i,
        (choose|j: int| first_key_at(types, name, j)) == i,
{
    assert forall|j: int| first_key_at(types, name, j) implies j == i by {
        if j < i {
        } else if j > i {
        }
    }
}

/// Whether `a` and `b` hold the same text.
pub fn same_text(a: &str, b: &str) -> (r: bool)
    ensures
        r == (a@ == b@),
{
    String::from_str(a) == String::from_str(b)
}

/// Whether `s` names one of the scalar types.
pub fn is_scalar(s: &str) -> (r: bool)
    ensures
        r == is_scalar_name(s@),
{
    let kinds = [
        ElemType::I8,
        ElemType::I16,
        ElemType::I32,
        ElemType::I64,
        ElemType::U8,
        ElemType::U16,
        ElemType::U32,
        ElemType::U64,
        ElemType::F16,
        ElemType::F32,
        ElemType::F64,
        ElemType::Bool,
    ];
    let mut i: usize = 0;
    while i < 12
        invariant
            i <= 12,
            kinds@.len() == 12,
            forall|e: ElemType| kinds@.contains(e),
            forall|j: int| 0 <= j < i ==> kinds@[j].spec_name() != s@,
        decreases 12 - i,
    {
        if same_text(kinds[i].to_str(), s) {
            return true;
        }
        i = i + 1;
    }
    proof {
        assert forall|e: ElemType| e.spec_name() != s@ by {
            assert(kinds@.contains(e));
        }
    }
    false
}

} // verus!
