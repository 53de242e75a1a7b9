use vstd::prelude::*;
use vstd::string::*;

use convert_case::{Case, Casing};

use crate::error::Error;
use crate::manifest::{find_type, same_text, Manifest, OpaqueOptions, Type};

verus! {

/// What convert_case gives for a text converted to Pascal case.
pub uninterp spec fn pascal_case_of(s: Seq<char>) -> Seq<char>;

/// Relies on convert_case's `Casing::to_case` with `Case::Pascal`, whose
/// result depends on the text alone.
#[verifier::external_body]
fn to_pascal_case(s: &str) -> (r: String)
    ensures
        r@ == pascal_case_of(s@),
{
    s.to_case(Case::Pascal)
}

/// The decimal digit for `d`.
pub open spec fn digit_char(d: nat) -> char {
    if d == 0 { '0' }
    else if d == 1 { '1' }
    else if d == 2 { '2' }
    else if d == 3 { '3' }
    else if d == 4 { '4' }
    else if d == 5 { '5' }
    else if d == 6 { '6' }
    else if d == 7 { '7' }
    else if d == 8 { '8' }
    else { '9' }
}

/// The decimal notation of `n`, without leading zeros.
pub open spec fn decimal(n: nat) -> Seq<char>
    decreases n,
{
    if n < 10 {
        seq![digit_char(n)]
    } else {
        decimal(n / 10) + seq![digit_char(n % 10)]
    }
}

/// Relies on std's `ToString` for `usize`, which writes the number in decimal.
#[verifier::external_body]
pub(crate) fn decimal_string(n: usize) -> (r: String)
    ensures
        r@ == decimal(n as nat),
{
    n.to_string()
}

/// Relies on std's `String::push`, which appends one character.
#[verifier::external_body]
pub(crate) fn push_char(s: &mut String, c: char)
    ensures
        final(s)@ == old(s)@.push(c),
{
    s.push(c)
}

pub open spec fn ascii_upper(c: char) -> char {
    if 'a' <= c && c <= 'z' {
        ((c as u32) - 32) as char
    } else {
        c
    }
}

/// `s` with its first character in upper case, where that character is ASCII.
pub open spec fn first_upper(s: Seq<char>) -> Seq<char> {
    if s.len() > 0 && (s[0] as u32) < 128 {
        s.update(0, ascii_upper(s[0]))
    } else {
        s
    }
}

fn to_ascii_upper(c: char) -> (r: char)
    ensures
        r == ascii_upper(c),
{
    if 'a' <= c && c <= 'z' {
        ((c as u8) - 32) as char
    } else {
        c
    }
}

/// Returns `s` with its first character in upper case, where that character
/// is ASCII.
pub fn first_uppercase(s: &str) -> (r: String)
    ensures
        r@ == first_upper(s@),
{
    let n = s.unicode_len();
    if n == 0 {
        return String::from_str(s);
    }
    let c = s.get_char(0);
    let mut r = String::new();
    if (c as u32) < 128 {
        push_char(&mut r, to_ascii_upper(c));
    } else {
        push_char(&mut r, c);
    }
    r.append(s.substring_char(1, n));
    proof {
        assert(r@ =~= first_upper(s@));
    }
    r
}

pub open spec fn is_ascii_ws(c: char) -> bool {
    c == ' ' || c == '\t' || c == '\n' || c == '\x0C' || c == '\r'
}

/// Whether a foreign type name reads `struct`, a blank, a name, a blank and `*`.
pub open spec fn has_struct_markers(s: Seq<char>) -> bool {
    &&& s.len() >= 9
    &&& s.subrange(0, 6) == "struct"@
    &&& is_ascii_ws(s[6])
    &&& is_ascii_ws(s[s.len() - 2])
    &&& s[s.len() - 1] == '*'
}

/// The bare struct name inside a foreign type name such as `struct foo *`.
pub open spec fn bare_struct_name(s: Seq<char>) -> Option<Seq<char>> {
    if has_struct_markers(s) {
        Some(s.subrange(7, s.len() - 2))
    } else {
        None
    }
}

fn is_ascii_whitespace(c: char) -> (r: bool)
    ensures
        r == is_ascii_ws(c),
{
    c == ' ' || c == '\t' || c == '\n' || c == '\x0C' || c == '\r'
}

/// Whether a foreign type name carries the `struct` and `*` markers that the
/// bare struct name is recovered from.
pub fn has_struct_name_markers(s: &str) -> (r: bool)
    ensures
        r == has_struct_markers(s@),
{
    proof {
        reveal_strlit("struct");
    }
    let n = s.unicode_len();
    if n < 9 {
        return false;
    }
    same_text(s.substring_char(0, 6), "struct") && is_ascii_whitespace(s.get_char(6))
        && is_ascii_whitespace(s.get_char(n - 2)) && s.get_char(n - 1) == '*'
}

/// Recovers the bare struct name from a foreign type name such as
/// `struct foo *`. A name without the markers breaks the naming convention
/// the bindings rely on; callers test it first with `has_struct_name_markers`.
pub fn convert_struct_name(s: &str) -> (r: &str)
    requires
        has_struct_markers(s@),
    ensures
        bare_struct_name(s@) == Some(r@),
{
    let n = s.unicode_len();
    s.substring_char(7, n - 2)
}

/// Whether a raw identifier can be turned into a type name by changing its
/// case, rather than needing a structural name.
pub open spec fn valid_name(name: Seq<char>) -> bool {
    name[0] != '(' && name[0] != '{' && name[0] != '#' && name[0] != '['
}

pub fn is_valid_name(name: &str) -> (r: bool)
    requires
        name@.len() > 0,
    ensures
        r == valid_name(name@),
{
    let first = name.get_char(0);
    first != '(' && first != '{' && first != '#' && first != '['
}

/// The structural name of an array of `elem` with `rank` dimensions.
pub open spec fn array_name(elem: Seq<char>, rank: nat) -> Seq<char> {
    elem + "Array"@ + decimal(rank) + "d"@
}

fn array_name_of(elem: &str, rank: usize) -> (r: String)
    ensures
        r@ == array_name(elem@, rank as nat),
{
    let mut r = String::from_str(elem);
    r.append("Array");
    let d = decimal_string(rank);
    r.append(d.as_str());
    r.append("d");
    r
}

/// The name of an anonymous record or sum, from its bare struct name.
pub open spec fn unnamed_name(bare: Seq<char>) -> Option<Seq<char>> {
    let p = "futhark_opaque"@;
    if bare.len() >= p.len() && bare.subrange(0, p.len() as int) == p {
        Some("Unnamed"@ + bare.subrange(p.len() as int, bare.len() as int))
    } else {
        None
    }
}

/// The bare struct name of each opaque type, by position in the type map.
pub open spec fn opaque_bare_name(t: Type) -> Option<Seq<char>> {
    match t {
        Type::Opaque(o) => bare_struct_name(o.ctype@),
        Type::Array(_) => None,
    }
}

/// The name that the default policy gives the type `data` with key `name`,
/// following element types at most `fuel` deep.
pub open spec fn default_type_name(name: Seq<char>, data: Type, m: Manifest, fuel: nat) -> Option<
    Seq<char>,
>
    decreases fuel,
{
    if name.len() == 0 {
        None
    } else if valid_name(name) {
        Some(pascal_case_of(name))
    } else {
        match data {
            Type::Array(a) => Some(array_name(first_upper(a.elemtype.spec_name()), a.rank as nat)),
            Type::Opaque(o) => match o.options {
                OpaqueOptions::OpaqueArray(a) | OpaqueOptions::RecordArray(a) => {
                    if fuel == 0 {
                        None
                    } else {
                        match find_type(m, a.elemtype@) {
                            Some(j) => match default_type_name(
                                a.elemtype@,
                                m.types@[j].1,
                                m,
                                (fuel - 1) as nat,
                            ) {
                                Some(e) => Some(array_name(e, a.rank as nat)),
                                None => None,
                            },
                            None => None,
                        }
                    }
                },
                _ => match find_type(m, name) {
                    Some(j) => match opaque_bare_name(m.types@[j].1) {
                        Some(b) => unnamed_name(b),
                        None => None,
                    },
                    None => None,
                },
            },
        }
    }
}

/// The accessor or parameter name for a field: a name that starts with a
/// digit gets an `f` in front.
pub open spec fn field_ident(name: Seq<char>) -> Seq<char> {
    if name.len() > 0 && '0' <= name[0] && name[0] <= '9' {
        seq!['f'] + name
    } else {
        name
    }
}

fn field_ident_of(name: &str) -> (r: String)
    ensures
        r@ == field_ident(name@),
{
    let n = name.unicode_len();
    if n > 0 {
        let c = name.get_char(0);
        if '0' <= c && c <= '9' {
            let mut r = String::new();
            push_char(&mut r, 'f');
            r.append(name);
            proof {
                assert(r@ =~= field_ident(name@));
            }
            return r;
        }
    }
    String::from_str(name)
}

/// A strategy that turns the raw identifiers of a manifest into identifiers
/// of the target language.
pub trait Namer {
    /// Whether `init` has prepared the namer for `m`.
    spec fn ready(&self, m: Manifest) -> bool;

    /// The name given to the type `data` with key `name`, if it can be named.
    spec fn spec_type_name(&self, name: Seq<char>, data: Type, m: Manifest) -> Option<Seq<char>>;

    /// The accessor name of a field.
    spec fn spec_project_name(&self, name: Seq<char>) -> Seq<char>;

    /// The constructor-parameter name of a field.
    spec fn spec_new_field_name(&self, name: Seq<char>) -> Seq<char>;

    /// Whether `m` keeps the naming conventions that the namer relies on.
    /// A manifest that breaks them breaches the contract with the compiler
    /// that wrote it, and is not named at all.
    spec fn follows_conventions(&self, m: Manifest) -> bool;

    /// Tests whether `manifest` keeps the namer's conventions.
    fn check_conventions(&self, manifest: &Manifest) -> (r: Result<(), Error>)
        ensures
            r is Ok == self.follows_conventions(*manifest),
    ;

    /// Prepares the namer for the types of `manifest`.
    fn init(&mut self, manifest: &Manifest)
        ensures
            final(self).ready(*manifest),
            final(self).follows_conventions(*manifest) == old(self).follows_conventions(*manifest),
    ;

    /// Names the type `data` with key `futhark_name`; `None` where the type
    /// cannot be named, as when its element types loop.
    fn name_type(&self, futhark_name: &str, data: &Type, manifest: &Manifest) -> (r: Option<String>)
        requires
            self.ready(*manifest),
            self.follows_conventions(*manifest),
        ensures
            r matches Some(s) ==> self.spec_type_name(futhark_name@, *data, *manifest) == Some(s@),
            r is None ==> self.spec_type_name(futhark_name@, *data, *manifest) is None,
    ;

    fn project_name(&self, futhark_name: &str, manifest: &Manifest) -> (r: String)
        ensures
            r@ == self.spec_project_name(futhark_name@),
    ;

    fn new_field_name(&self, futhark_name: &str, manifest: &Manifest) -> (r: String)
        ensures
            r@ == self.spec_new_field_name(futhark_name@),
    ;
}

/// The default naming policy: case conversion for readable identifiers,
/// structural names for anonymous types.
#[derive(Default, Debug, Clone)]
pub struct DefaultNamer {
    /// The bare struct name of each opaque type, by position in the type map.
    ctypes: Vec<Option<String>>,
}

impl DefaultNamer {
    /// Whether `ctypes` holds the bare struct names of the types of `m`.
    pub closed spec fn holds_bare_names_of(&self, m: Manifest) -> bool {
        &&& self.ctypes@.len() == m.types@.len()
        &&& forall|i: int|
            0 <= i < m.types@.len() ==> match #[trigger] self.ctypes@[i] {
                Some(b) => opaque_bare_name(m.types@[i].1) == Some(b@),
                None => opaque_bare_name(m.types@[i].1) is None,
            }
    }

    fn name_with_fuel(&self, name: &str, data: &Type, m: &Manifest, fuel: usize) -> (r: Option<
        String,
    >)
        requires
            self.holds_bare_names_of(*m),
        ensures
            r matches Some(s) ==> default_type_name(name@, *data, *m, fuel as nat) == Some(s@),
            r is None ==> default_type_name(name@, *data, *m, fuel as nat) is None,
        decreases fuel,
    {
        if name.unicode_len() == 0 {
            return None;
        }
        if is_valid_name(name) {
            return Some(to_pascal_case(name));
        }
        match data {
            Type::Array(a) => {
                let elemname = first_uppercase(a.elemtype.to_str());
                Some(array_name_of(elemname.as_str(), a.rank))
            },
            Type::Opaque(o) => match &o.options {
                OpaqueOptions::OpaqueArray(a) | OpaqueOptions::RecordArray(a) => {
                    if fuel == 0 {
                        return None;
                    }
                    match m.position_of_type(a.elemtype.as_str()) {
                        Some(j) => {
                            match self.name_with_fuel(
                                a.elemtype.as_str(),
                                &m.types[j].1,
                                m,
                                fuel - 1,
                            ) {
                                Some(e) => Some(array_name_of(e.as_str(), a.rank)),
                                None => None,
                            }
                        },
                        None => None,
                    }
                },
                _ => match m.position_of_type(name) {
                    Some(j) => match &self.ctypes[j] {
                        Some(b) => unnamed_of(b.as_str()),
                        None => None,
                    },
                    None => None,
                },
            },
        }
    }
}

fn unnamed_of(bare: &str) -> (r: Option<String>)
    ensures
        r matches Some(s) ==> unnamed_name(bare@) == Some(s@),
        r is None ==> unnamed_name(bare@) is None,
{
    let p = "futhark_opaque";
    let pl = p.unicode_len();
    let n = bare.unicode_len();
    if n < pl {
        return None;
    }
    if !same_text(bare.substring_char(0, pl), p) {
        return None;
    }
    let mut r = String::from_str("Unnamed");
    r.append(bare.substring_char(pl, n));
    Some(r)
}

/// Whether the type at position `j` of `m` is an anonymous record or sum
/// whose bare struct name carries the `futhark_opaque` prefix, or is no
/// anonymous record or sum.
pub open spec fn unnamed_prefix_ok(m: Manifest, j: int) -> bool {
    let key = m.types@[j].0@;
    let t = m.types@[j].1;
    (key.len() > 0 && !valid_name(key) && t is Opaque && (t->Opaque_0.options is Record
        || t->Opaque_0.options is Sum)) ==> match opaque_bare_name(t) {
        Some(b) => unnamed_name(b) is Some,
        None => false,
    }
}

/// Whether every anonymous record and sum of `m` has a foreign name of the
/// form `struct futhark_opaque... *`.
pub open spec fn default_conventions(m: Manifest) -> bool {
    forall|j: int| 0 <= j < m.types@.len() ==> #[trigger] unnamed_prefix_ok(m, j)
}

impl DefaultNamer {
    /// A namer that has not yet been prepared for any manifest.
    pub fn new() -> (r: DefaultNamer)
        ensures
            r.is_fresh(),
            forall|m: Manifest| m.types@.len() == 0 ==> r.ready(m),
    {
        DefaultNamer { ctypes: Vec::new() }
    }

    /// Whether the namer holds nothing yet.
    pub closed spec fn is_fresh(&self) -> bool {
        self.ctypes@.len() == 0
    }

    fn prefix_ok(manifest: &Manifest, j: usize) -> (r: bool)
        requires
            j < manifest.types@.len(),
        ensures
            r == unnamed_prefix_ok(*manifest, j as int),
    {
        let key = manifest.types[j].0.as_str();
        if key.unicode_len() == 0 || is_valid_name(key) {
            return true;
        }
        match &manifest.types[j].1 {
            Type::Array(_) => true,
            Type::Opaque(o) => match &o.options {
                OpaqueOptions::Record(_) | OpaqueOptions::Sum(_) => {
                    if !has_struct_name_markers(o.ctype.as_str()) {
                        return false;
                    }
                    unnamed_of(convert_struct_name(o.ctype.as_str())).is_some()
                },
                _ => true,
            },
        }
    }
}

impl Namer for DefaultNamer {
    open spec fn ready(&self, m: Manifest) -> bool {
        self.holds_bare_names_of(m)
    }

    open spec fn follows_conventions(&self, m: Manifest) -> bool {
        default_conventions(m)
    }

    fn check_conventions(&self, manifest: &Manifest) -> (r: Result<(), Error>) {
        let mut j: usize = 0;
        while j < manifest.types.len()
            invariant
                j <= manifest.types@.len(),
                forall|q: int| 0 <= q < j ==> #[trigger] unnamed_prefix_ok(*manifest, q),
            decreases manifest.types@.len() - j,
        {
            if !Self::prefix_ok(manifest, j) {
                return Err(Error::MissingMarker(manifest.types[j].1.ctype().to_owned()));
            }
            j = j + 1;
        }
        Ok(())
    }

    open spec fn spec_type_name(&self, name: Seq<char>, data: Type, m: Manifest) -> Option<
        Seq<char>,
    > {
        default_type_name(name, data, m, m.types@.len())
    }

    open spec fn spec_project_name(&self, name: Seq<char>) -> Seq<char> {
        field_ident(name)
    }

    open spec fn spec_new_field_name(&self, name: Seq<char>) -> Seq<char> {
        field_ident(name)
    }

    fn init(&mut self, manifest: &Manifest) {
        let mut ctypes: Vec<Option<String>> = Vec::new();
        let mut i: usize = 0;
        while i < manifest.types.len()
            invariant
                i <= manifest.types@.len(),
                ctypes@.len() == i,
                forall|k: int|
                    0 <= k < i ==> match #[trigger] ctypes@[k] {
                        Some(b) => opaque_bare_name(manifest.types@[k].1) == Some(b@),
                        None => opaque_bare_name(manifest.types@[k].1) is None,
                    },
            decreases manifest.types@.len() - i,
        {
            let bare = match &manifest.types[i].1 {
                Type::Opaque(o) => if has_struct_name_markers(o.ctype.as_str()) {
                    Some(String::from_str(convert_struct_name(o.ctype.as_str())))
                } else {
                    None
                },
                Type::Array(_) => None,
            };
            ctypes.push(bare);
            i = i + 1;
        }
        self.ctypes = ctypes;
    }

    fn name_type(&self, futhark_name: &str, data: &Type, manifest: &Manifest) -> (r: Option<
        String,
    >) {
        self.name_with_fuel(futhark_name, data, manifest, manifest.types.len())
    }

    fn project_name(&self, futhark_name: &str, _manifest: &Manifest) -> (r: String) {
        field_ident_of(futhark_name)
    }

    fn new_field_name(&self, futhark_name: &str, _manifest: &Manifest) -> (r: String) {
        field_ident_of(futhark_name)
    }
}

/// Whether two namers give every type and field of `m` the same names.
pub open spec fn namers_agree<N: Namer>(a: N, b: N, m: Manifest) -> bool {
    &&& forall|name: Seq<char>, data: Type|
        #[trigger] a.spec_type_name(name, data, m) == b.spec_type_name(name, data, m)
    &&& forall|name: Seq<char>| #[trigger] a.spec_project_name(name) == b.spec_project_name(name)
    &&& forall|name: Seq<char>|
        #[trigger] a.spec_new_field_name(name) == b.spec_new_field_name(name)
}

/// Any two default namers name alike: the default policy's names depend on
/// the manifest alone.
pub proof fn lemma_default_namers_agree(a: DefaultNamer, b: DefaultNamer, m: Manifest)
    ensures
        namers_agree(a, b, m),
{
}

} // verus!
