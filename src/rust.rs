use vstd::prelude::*;
use vstd::string::*;

use crate::backend::Backend;
use crate::catalog::{catalog_builds, catalog_of, names_pairwise_distinct, Catalog};
use crate::error::Error;
use crate::manifest::{
    find_type, first_key_at, has_type, keys_distinct, refs_resolve, struct_names_ok, same_text, type_refs_resolve, ArrayType, Entry,
    Field, Manifest, OpaqueOptions, OpaqueType, Type,
};
use crate::generate::{
    array_positions, array_step, entry_step, generate, lemma_positions, opaque_positions, opaque_step,
    ran_phases, Generate,
};
use crate::naming::{decimal, decimal_string, namers_agree, Namer};

verus! {

/// The extension that std's `Path::extension` finds in a path.
pub uninterp spec fn extension_of(path: Seq<char>) -> Option<Seq<char>>;

/// Relies on std's `Path::extension`: the part of the file name after its
/// last `.`, if any.
#[verifier::external_body]
fn path_extension(path: &str) -> (r: Option<String>)
    ensures
        r matches Some(e) ==> extension_of(path@) == Some(e@),
        r is None ==> extension_of(path@) is None,
{
    std::path::Path::new(path).extension().map(|e| e.to_string_lossy().into_owned())
}

/// The views of a list of strings.
pub open spec fn texts(v: Seq<String>) -> Seq<Seq<char>> {
    v.map_values(|s: String| s@)
}

/// `prefix`, the number, `suffix`: once for each number below `n`.
pub open spec fn numbered(prefix: Seq<char>, suffix: Seq<char>, n: nat) -> Seq<Seq<char>> {
    Seq::new(n, |i: int| prefix + decimal(i as nat) + suffix)
}

/// Lists `prefix`, the number, `suffix` for each number below `n`.
pub fn numbered_list(prefix: &str, suffix: &str, n: usize) -> (r: Vec<String>)
    ensures
        texts(r@) == numbered(prefix@, suffix@, n as nat),
{
    let mut r: Vec<String> = Vec::new();
    let mut i: usize = 0;
    while i < n
        invariant
            i <= n,
            texts(r@) == numbered(prefix@, suffix@, i as nat),
        decreases n - i,
    {
        let mut s = String::from_str(prefix);
        let d = decimal_string(i);
        s.append(d.as_str());
        s.append(suffix);
        let ghost prev = r@;
        let ghost sv = s@;
        r.push(s);
        proof {
            assert(texts(r@) =~= texts(prev).push(sv));
            assert(numbered(prefix@, suffix@, (i + 1) as nat) =~= numbered(prefix@, suffix@, i as nat).push(sv));
        }
        i = i + 1;
    }
    r
}

/// The target-language name of a scalar type.
pub open spec fn primitive_name(a: Seq<char>) -> Seq<char> {
    if a == "f16"@ {
        "half::f16"@
    } else {
        a
    }
}

/// Whether `a` names no type of the manifest, and is thus a scalar.
pub fn is_primitive(a: &str, manifest: &Manifest) -> (r: bool)
    ensures
        r == !has_type(*manifest, a@),
{
    !manifest.has_type_named(a)
}

pub fn primitive_type_name<'a>(a: &'a str) -> (r: &'a str)
    ensures
        r@ == primitive_name(a@),
{
    if same_text(a, "f16") {
        "half::f16"
    } else {
        a
    }
}

/// How a value of one manifest type crosses the foreign boundary.
#[derive(Debug, Clone)]
pub struct Slot {
    /// A handle of a generated type, rather than a scalar passed by value.
    pub handle: bool,
    /// The foreign type.
    pub raw_type: String,
    /// The target-language type.
    pub rust_type: String,
}

/// Whether `s` describes the manifest type `ty`.
pub open spec fn slot_for(s: Slot, m: Manifest, c: Catalog, ty: Seq<char>) -> bool {
    match find_type(m, ty) {
        Some(i) => {
            &&& s.handle
            &&& s.raw_type@ == c.raw_names@[i]@
            &&& s.rust_type@ == c.type_names@[i]@
        },
        None => {
            &&& !s.handle
            &&& s.raw_type@ == primitive_name(ty)
            &&& s.rust_type@ == primitive_name(ty)
        },
    }
}

/// Whether the catalog has one entry for each type of the manifest.
pub open spec fn covers(c: Catalog, m: Manifest) -> bool {
    &&& c.type_names@.len() == m.types@.len()
    &&& c.raw_names@.len() == m.types@.len()
}

fn slot_of(m: &Manifest, c: &Catalog, ty: &str) -> (r: Slot)
    requires
        covers(*c, *m),
    ensures
        slot_for(r, *m, *c, ty@),
{
    match m.position_of_type(ty) {
        Some(i) => Slot {
            handle: true,
            raw_type: c.raw_names[i].clone(),
            rust_type: c.type_names[i].clone(),
        },
        None => {
            let p = primitive_type_name(ty);
            Slot { handle: false, raw_type: String::from_str(p), rust_type: String::from_str(p) }
        },
    }
}

/// How an entry point hands back its outputs.
#[derive(Debug, Clone, Copy, PartialEq, Eq, Structural)]
pub enum ReturnShape {
    /// No outputs: no value.
    Unit,
    /// One output: that value alone.
    Bare,
    /// Several outputs: a tuple of all of them, in declared order.
    Tuple,
}

/// The return shape for `k` outputs.
pub open spec fn return_shape_for(k: nat) -> ReturnShape {
    if k == 0 {
        ReturnShape::Unit
    } else if k == 1 {
        ReturnShape::Bare
    } else {
        ReturnShape::Tuple
    }
}

/// What the entry-point template is filled with.
#[derive(Debug, Clone)]
pub struct EntryPlan {
    pub name: String,
    pub cfun: String,
    /// One slot per declared output, in order.
    pub outputs: Vec<Slot>,
    /// One slot per declared input, in order.
    pub inputs: Vec<Slot>,
    pub ret: ReturnShape,
}

pub open spec fn entry_plan_for(p: EntryPlan, m: Manifest, c: Catalog, name: Seq<char>, e: Entry) -> bool {
    &&& p.name@ == name
    &&& p.cfun@ == e.cfun@
    &&& p.outputs@.len() == e.outputs@.len()
    &&& forall|k: int| 0 <= k < e.outputs@.len() ==> slot_for(#[trigger] p.outputs@[k], m, c, e.outputs@[k].ty@)
    &&& p.inputs@.len() == e.inputs@.len()
    &&& forall|k: int| 0 <= k < e.inputs@.len() ==> slot_for(#[trigger] p.inputs@[k], m, c, e.inputs@[k].ty@)
    &&& p.ret == return_shape_for(e.outputs@.len())
}

/// What the accessor and constructor templates are filled with for one field.
#[derive(Debug, Clone)]
pub struct FieldPlan {
    /// The field's raw name.
    pub name: String,
    /// The constructor parameter that takes the field.
    pub param_name: String,
    /// The accessor that reads the field.
    pub project_name: String,
    /// The foreign projection function.
    pub project_fn: String,
    pub slot: Slot,
}

pub open spec fn field_plan_for<N: Namer>(p: FieldPlan, m: Manifest, c: Catalog, namer: N, f: Field) -> bool {
    &&& p.name@ == f.name@
    &&& p.param_name@ == namer.spec_new_field_name(f.name@)
    &&& p.project_name@ == namer.spec_project_name(f.name@)
    &&& p.project_fn@ == f.project@
    &&& slot_for(p.slot, m, c, f.ty@)
}

pub open spec fn field_plans_for<N: Namer>(
    p: Seq<FieldPlan>,
    m: Manifest,
    c: Catalog,
    namer: N,
    fs: Seq<Field>,
) -> bool {
    &&& p.len() == fs.len()
    &&& forall|k: int| 0 <= k < fs.len() ==> field_plan_for(#[trigger] p[k], m, c, namer, fs[k])
}

/// What the array template is filled with.
#[derive(Debug, Clone)]
pub struct ArrayPlan {
    pub name: String,
    pub raw_type: String,
    pub rust_type: String,
    pub rank: usize,
    pub elemtype: String,
    pub new_fn: String,
    pub free_fn: String,
    pub values_fn: String,
    pub shape_fn: String,
    pub index_fn: String,
    /// The dimensions handed to the foreign constructor.
    pub dim_params: Vec<String>,
    /// The dimension parameters of the foreign constructor.
    pub new_dim_args: Vec<String>,
    /// The index handed to the foreign index function.
    pub index_params: Vec<String>,
    /// The index parameters of the foreign index function.
    pub index_args: Vec<String>,
}

pub open spec fn array_plan_for(p: ArrayPlan, c: Catalog, name: Seq<char>, a: ArrayType, i: int) -> bool {
    &&& p.name@ == name
    &&& p.raw_type@ == c.raw_names@[i]@
    &&& p.rust_type@ == c.type_names@[i]@
    &&& p.rank == a.rank
    &&& p.elemtype@ == a.elemtype.spec_name()
    &&& p.new_fn@ == a.ops.new@
    &&& p.free_fn@ == a.ops.free@
    &&& p.values_fn@ == a.ops.values@
    &&& p.shape_fn@ == a.ops.shape@
    &&& p.index_fn@ == a.ops.index@
    &&& texts(p.dim_params@) == numbered("dims["@, "] as i64"@, a.rank as nat)
    &&& texts(p.new_dim_args@) == numbered("dim"@, ": i64"@, a.rank as nat)
    &&& texts(p.index_params@) == numbered("index["@, "] as i64"@, a.rank as nat)
    &&& texts(p.index_args@) == numbered("i"@, ": i64"@, a.rank as nat)
}

/// What the opaque-handle template is filled with.
#[derive(Debug, Clone)]
pub struct OpaquePlan {
    pub name: String,
    pub raw_type: String,
    pub rust_type: String,
    pub free_fn: String,
    pub store_fn: String,
    pub restore_fn: String,
}

pub open spec fn opaque_plan_for(p: OpaquePlan, c: Catalog, name: Seq<char>, o: OpaqueType, i: int) -> bool {
    &&& p.name@ == name
    &&& p.raw_type@ == c.raw_names@[i]@
    &&& p.rust_type@ == c.type_names@[i]@
    &&& p.free_fn@ == o.ops.free@
    &&& p.store_fn@ == o.ops.store@
    &&& p.restore_fn@ == o.ops.restore@
}

/// What the record constructor template is filled with.
#[derive(Debug, Clone)]
pub struct RecordPlan {
    pub new_fn: String,
    pub fields: Vec<FieldPlan>,
}

/// What the zip constructor of a record array is filled with.
#[derive(Debug, Clone)]
pub struct ZipPlan {
    pub zip_fn: String,
    pub fields: Vec<FieldPlan>,
}

/// What the template of an array of non-scalars is filled with.
#[derive(Debug, Clone)]
pub struct OpaqueArrayPlan {
    pub rank: usize,
    pub shape_fn: String,
    pub index_fn: String,
    /// The generated name of the element type.
    pub elem_rust: String,
    /// The bare foreign name of the element type.
    pub elem_raw: String,
    pub index_args: Vec<String>,
    pub index_params: Vec<String>,
    pub zip: Option<ZipPlan>,
}

/// The plan for one type of the manifest.
#[derive(Debug, Clone)]
pub enum TypePlan {
    Array(ArrayPlan),
    Record(OpaquePlan, RecordPlan),
    Sum(OpaquePlan),
    OpaqueArray(OpaquePlan, OpaqueArrayPlan),
}

pub open spec fn type_plan_for<N: Namer>(p: TypePlan, m: Manifest, c: Catalog, namer: N, i: int) -> bool {
    let name = m.types@[i].0@;
    match m.types@[i].1 {
        Type::Array(a) => match p {
            TypePlan::Array(ap) => array_plan_for(ap, c, name, a, i),
            _ => false,
        },
        Type::Opaque(o) => match o.options {
            OpaqueOptions::Record(r) => match p {
                TypePlan::Record(op, rp) => {
                    &&& opaque_plan_for(op, c, name, o, i)
                    &&& rp.new_fn@ == r.new@
                    &&& field_plans_for(rp.fields@, m, c, namer, r.fields@)
                },
                _ => false,
            },
            OpaqueOptions::Sum(_) => match p {
                TypePlan::Sum(op) => opaque_plan_for(op, c, name, o, i),
                _ => false,
            },
            OpaqueOptions::OpaqueArray(a) | OpaqueOptions::RecordArray(a) => match p {
                TypePlan::OpaqueArray(op, ap) => {
                    &&& opaque_plan_for(op, c, name, o, i)
                    &&& ap.rank == a.rank
                    &&& ap.shape_fn@ == a.shape@
                    &&& ap.index_fn@ == a.index@
                    &&& (find_type(m, a.elemtype@) matches Some(j) && ap.elem_rust@
                        == c.type_names@[j]@ && ap.elem_raw@ == c.raw_names@[j]@)
                    &&& texts(ap.index_args@) == numbered("i"@, ": i64"@, a.rank as nat)
                    &&& texts(ap.index_params@) == numbered("index["@, "] as i64"@, a.rank as nat)
                    &&& match a.record {
                        Some(r) => match ap.zip {
                            Some(z) => z.zip_fn@ == r.zip@ && field_plans_for(
                                z.fields@,
                                m,
                                c,
                                namer,
                                r.fields@,
                            ),
                            None => false,
                        },
                        None => ap.zip is None,
                    }
                },
                _ => false,
            },
        },
    }
}

/// Whether `after` holds what `before` held, then the backend of `m`, a plan
/// for each array type of `m`, then a plan for each opaque type of `m`, and a
/// plan for each entry point of `m`, each group in manifest order.
pub open spec fn emitted<N: Namer>(before: Rust, after: Rust, m: Manifest, c: Catalog, namer: N) -> bool {
    let t0 = before.types@.len();
    let na = array_positions(m).len();
    let e0 = before.entries@.len();
    &&& after.backend == Some(m.backend)
    &&& after.entry_points_within_context == before.entry_points_within_context
    &&& after.types@.len() == t0 + na + opaque_positions(m).len()
    &&& after.types@.subrange(0, t0 as int) == before.types@
    &&& forall|k: int|
        0 <= k < na ==> type_plan_for(
            #[trigger] after.types@[t0 + k],
            m,
            c,
            namer,
            array_positions(m)[k],
        )
    &&& forall|k: int|
        0 <= k < opaque_positions(m).len() ==> type_plan_for(
            #[trigger] after.types@[t0 + na + k],
            m,
            c,
            namer,
            opaque_positions(m)[k],
        )
    &&& after.entries@.len() == e0 + m.entry_points@.len()
    &&& after.entries@.subrange(0, e0 as int) == before.entries@
    &&& forall|k: int|
        0 <= k < m.entry_points@.len() ==> entry_plan_for(
            #[trigger] after.entries@[e0 + k],
            m,
            c,
            m.entry_points@[k].0@,
            m.entry_points@[k].1,
        )
}

/// Whether `after` is `before` with one more type plan, for the type at
/// position `i`.
pub open spec fn type_step<N: Namer>(before: Rust, after: Rust, m: Manifest, c: Catalog, namer: N, i: int) -> bool {
    &&& after.types@.len() == before.types@.len() + 1
    &&& after.types@.subrange(0, before.types@.len() as int) == before.types@
    &&& type_plan_for(after.types@[before.types@.len() as int], m, c, namer, i)
    &&& after.entries == before.entries
    &&& after.backend == before.backend
    &&& after.entry_points_within_context == before.entry_points_within_context
}

/// Whether `after` is `before` with one more entry plan, for the entry point
/// at position `k`.
pub open spec fn entry_step_of(before: Rust, after: Rust, m: Manifest, c: Catalog, k: int) -> bool {
    &&& after.entries@.len() == before.entries@.len() + 1
    &&& after.entries@.subrange(0, before.entries@.len() as int) == before.entries@
    &&& entry_plan_for(
        after.entries@[before.entries@.len() as int],
        m,
        c,
        m.entry_points@[k].0@,
        m.entry_points@[k].1,
    )
    &&& after.types == before.types
    &&& after.backend == before.backend
    &&& after.entry_points_within_context == before.entry_points_within_context
}

proof fn lemma_type_chain<N: Namer>(
    states: Seq<Rust>,
    from: int,
    count: nat,
    idx: Seq<int>,
    m: Manifest,
    c: Catalog,
    namer: N,
)
    requires
        0 <= from,
        from + count < states.len(),
        count <= idx.len(),
        forall|k: int|
            0 <= k < count ==> #[trigger] type_step(states[from + k], states[from + k + 1], m, c, namer, idx[k]),
    ensures
        states[from + count].types@.len() == states[from].types@.len() + count,
        states[from + count].types@.subrange(0, states[from].types@.len() as int) == states[from].types@,
        forall|q: int|
            0 <= q < count ==> type_plan_for(
                #[trigger] states[from + count].types@[states[from].types@.len() + q],
                m,
                c,
                namer,
                idx[q],
            ),
        states[from + count].entries == states[from].entries,
        states[from + count].backend == states[from].backend,
        states[from + count].entry_points_within_context == states[from].entry_points_within_context,
    decreases count,
{
    if count > 0 {
        let c1 = (count - 1) as nat;
        lemma_type_chain(states, from, c1, idx, m, c, namer);
        let p = states[from + c1];
        let s = states[from + count];
        let t0 = states[from].types@.len();
        assert(type_step(states[from + c1], states[from + c1 + 1], m, c, namer, idx[c1 as int]));
        assert(s.types@.subrange(0, t0 as int) =~= p.types@.subrange(0, p.types@.len() as int).subrange(0, t0 as int));
        assert forall|q: int| 0 <= q < count implies type_plan_for(
            #[trigger] s.types@[t0 + q],
            m,
            c,
            namer,
            idx[q],
        ) by {
            if q < c1 {
                assert(s.types@[t0 + q] == s.types@.subrange(0, p.types@.len() as int)[t0 + q]);
                assert(type_plan_for(p.types@[t0 + q], m, c, namer, idx[q]));
            }
        }
    }
}

proof fn lemma_entry_chain(states: Seq<Rust>, from: int, count: nat, m: Manifest, c: Catalog)
    requires
        0 <= from,
        from + count < states.len(),
        count <= m.entry_points@.len(),
        forall|k: int|
            0 <= k < count ==> #[trigger] entry_step_of(states[from + k], states[from + k + 1], m, c, k),
    ensures
        states[from + count].entries@.len() == states[from].entries@.len() + count,
        states[from + count].entries@.subrange(0, states[from].entries@.len() as int) == states[from].entries@,
        forall|q: int|
            0 <= q < count ==> entry_plan_for(
                #[trigger] states[from + count].entries@[states[from].entries@.len() + q],
                m,
                c,
                m.entry_points@[q].0@,
                m.entry_points@[q].1,
            ),
        states[from + count].types == states[from].types,
        states[from + count].backend == states[from].backend,
        states[from + count].entry_points_within_context == states[from].entry_points_within_context,
    decreases count,
{
    if count > 0 {
        let c1 = (count - 1) as nat;
        lemma_entry_chain(states, from, c1, m, c);
        let p = states[from + c1];
        let s = states[from + count];
        let e0 = states[from].entries@.len();
        assert(entry_step_of(states[from + c1], states[from + c1 + 1], m, c, c1 as int));
        assert(s.entries@.subrange(0, e0 as int) =~= p.entries@.subrange(0, p.entries@.len() as int).subrange(0, e0 as int));
        assert forall|q: int| 0 <= q < count implies entry_plan_for(
            #[trigger] s.entries@[e0 + q],
            m,
            c,
            m.entry_points@[q].0@,
            m.entry_points@[q].1,
        ) by {
            if q < c1 {
                assert(s.entries@[e0 + q] == s.entries@.subrange(0, p.entries@.len() as int)[e0 + q]);
            }
        }
    }
}

/// A run of the phases through the Rust emitter leaves exactly the plans that
/// `emitted` describes.
pub proof fn lemma_rust_phases<N: Namer>(states: Seq<Rust>, m: Manifest, c: Catalog, namer: N)
    requires
        ran_phases::<N, Rust>(states, m, c, namer),
    ensures
        emitted(states[0], states.last(), m, c, namer),
{
    let arr = array_positions(m);
    let opq = opaque_positions(m);
    let na: int = arr.len() as int;
    let no: int = opq.len() as int;
    let ne: int = m.entry_points@.len() as int;
    assert forall|k: int| 0 <= k < na implies #[trigger] type_step(states[1 + k], states[1 + k + 1], m, c, namer, arr[k]) by {
        assert(array_step::<N, Rust>(states, m, c, namer, k));
    }
    lemma_type_chain(states, 1, na as nat, arr, m, c, namer);
    assert forall|k: int| 0 <= k < no implies #[trigger] type_step(states[(1 + na) + k], states[(1 + na) + k + 1], m, c, namer, opq[k]) by {
        assert(opaque_step::<N, Rust>(states, m, c, namer, k));
    }
    lemma_type_chain(states, 1 + na, no as nat, opq, m, c, namer);
    assert forall|k: int| 0 <= k < ne implies #[trigger] entry_step_of(states[(1 + na + no) + k], states[(1 + na + no) + k + 1], m, c, k) by {
        assert(entry_step::<N, Rust>(states, m, c, namer, k));
    }
    lemma_entry_chain(states, 1 + na + no, ne as nat, m, c);
    let s0 = states[0];
    let s1 = states[1];
    let sa = states[1 + na];
    let so = states[1 + na + no];
    let sf = states[1 + na + no + ne];
    assert(sf == states.last());
    let t0 = s0.types@.len();
    assert(s1.types == s0.types);
    assert forall|k: int| 0 <= k < na implies type_plan_for(
        #[trigger] sf.types@[t0 + k],
        m,
        c,
        namer,
        arr[k],
    ) by {
        assert(type_plan_for(sa.types@[t0 + k], m, c, namer, arr[k]));
        assert(sf.types@[t0 + k] == so.types@.subrange(0, sa.types@.len() as int)[t0 + k]);
    }
    assert(sf.types@.subrange(0, t0 as int) =~= so.types@.subrange(0, sa.types@.len() as int).subrange(0, t0 as int));
}

/// The construction operation of an array type of rank `R` takes exactly `R`
/// dimensions, its index operation exactly `R` indices, and its shape has `R`
/// entries.
pub proof fn lemma_array_arity(p: ArrayPlan, c: Catalog, name: Seq<char>, a: ArrayType, i: int)
    requires
        array_plan_for(p, c, name, a, i),
    ensures
        p.rank == a.rank,
        p.dim_params@.len() == a.rank,
        p.new_dim_args@.len() == a.rank,
        p.index_params@.len() == a.rank,
        p.index_args@.len() == a.rank,
{
    assert(texts(p.dim_params@).len() == p.dim_params@.len());
    assert(texts(p.new_dim_args@).len() == p.new_dim_args@.len());
    assert(texts(p.index_params@).len() == p.index_params@.len());
    assert(texts(p.index_args@).len() == p.index_args@.len());
}

/// Whether two slots hold the same values and texts.
pub open spec fn same_slot(a: Slot, b: Slot) -> bool {
    &&& a.handle == b.handle
    &&& a.raw_type@ == b.raw_type@
    &&& a.rust_type@ == b.rust_type@
}

pub open spec fn same_fields(a: Seq<FieldPlan>, b: Seq<FieldPlan>) -> bool {
    &&& a.len() == b.len()
    &&& forall|k: int|
        0 <= k < a.len() ==> {
            &&& (#[trigger] a[k]).name@ == b[k].name@
            &&& a[k].param_name@ == b[k].param_name@
            &&& a[k].project_name@ == b[k].project_name@
            &&& a[k].project_fn@ == b[k].project_fn@
            &&& same_slot(a[k].slot, b[k].slot)
        }
}

pub open spec fn same_opaque(a: OpaquePlan, b: OpaquePlan) -> bool {
    &&& a.name@ == b.name@
    &&& a.raw_type@ == b.raw_type@
    &&& a.rust_type@ == b.rust_type@
    &&& a.free_fn@ == b.free_fn@
    &&& a.store_fn@ == b.store_fn@
    &&& a.restore_fn@ == b.restore_fn@
}

/// Whether two type plans hold the same values and texts.
pub open spec fn same_type_plan(a: TypePlan, b: TypePlan) -> bool {
    match (a, b) {
        (TypePlan::Array(x), TypePlan::Array(y)) => {
            &&& x.name@ == y.name@
            &&& x.raw_type@ == y.raw_type@
            &&& x.rust_type@ == y.rust_type@
            &&& x.rank == y.rank
            &&& x.elemtype@ == y.elemtype@
            &&& x.new_fn@ == y.new_fn@
            &&& x.free_fn@ == y.free_fn@
            &&& x.values_fn@ == y.values_fn@
            &&& x.shape_fn@ == y.shape_fn@
            &&& x.index_fn@ == y.index_fn@
            &&& texts(x.dim_params@) == texts(y.dim_params@)
            &&& texts(x.new_dim_args@) == texts(y.new_dim_args@)
            &&& texts(x.index_params@) == texts(y.index_params@)
            &&& texts(x.index_args@) == texts(y.index_args@)
        },
        (TypePlan::Record(xo, x), TypePlan::Record(yo, y)) => {
            &&& same_opaque(xo, yo)
            &&& x.new_fn@ == y.new_fn@
            &&& same_fields(x.fields@, y.fields@)
        },
        (TypePlan::Sum(xo), TypePlan::Sum(yo)) => same_opaque(xo, yo),
        (TypePlan::OpaqueArray(xo, x), TypePlan::OpaqueArray(yo, y)) => {
            &&& same_opaque(xo, yo)
            &&& x.rank == y.rank
            &&& x.shape_fn@ == y.shape_fn@
            &&& x.index_fn@ == y.index_fn@
            &&& x.elem_rust@ == y.elem_rust@
            &&& x.elem_raw@ == y.elem_raw@
            &&& texts(x.index_args@) == texts(y.index_args@)
            &&& texts(x.index_params@) == texts(y.index_params@)
            &&& match (x.zip, y.zip) {
                (Some(xz), Some(yz)) => xz.zip_fn@ == yz.zip_fn@ && same_fields(
                    xz.fields@,
                    yz.fields@,
                ),
                (None, None) => true,
                _ => false,
            }
        },
        _ => false,
    }
}

/// Whether two entry plans hold the same values and texts.
pub open spec fn same_entry_plan(a: EntryPlan, b: EntryPlan) -> bool {
    &&& a.name@ == b.name@
    &&& a.cfun@ == b.cfun@
    &&& a.ret == b.ret
    &&& a.outputs@.len() == b.outputs@.len()
    &&& forall|k: int| 0 <= k < a.outputs@.len() ==> same_slot(#[trigger] a.outputs@[k], b.outputs@[k])
    &&& a.inputs@.len() == b.inputs@.len()
    &&& forall|k: int| 0 <= k < a.inputs@.len() ==> same_slot(#[trigger] a.inputs@[k], b.inputs@[k])
}

proof fn lemma_same_fields<N: Namer>(
    a: Seq<FieldPlan>,
    b: Seq<FieldPlan>,
    m: Manifest,
    c1: Catalog,
    c2: Catalog,
    n1: N,
    n2: N,
    fs: Seq<Field>,
)
    requires
        field_plans_for(a, m, c1, n1, fs),
        field_plans_for(b, m, c2, n2, fs),
        namers_agree(n1, n2, m),
        texts(c1.type_names@) == texts(c2.type_names@),
        texts(c1.raw_names@) == texts(c2.raw_names@),
        covers(c1, m),
        covers(c2, m),
    ensures
        same_fields(a, b),
{
    assert forall|k: int| 0 <= k < a.len() implies same_slot(a[k].slot, b[k].slot) by {
        assert(field_plan_for(a[k], m, c1, n1, fs[k]));
        assert(field_plan_for(b[k], m, c2, n2, fs[k]));
        lemma_same_slot(a[k].slot, b[k].slot, m, c1, c2, fs[k].ty@);
    }
    assert forall|k: int| 0 <= k < a.len() implies (#[trigger] a[k]).name@ == b[k].name@ && a[k].param_name@ == b[k].param_name@
        && a[k].project_name@ == b[k].project_name@ && a[k].project_fn@ == b[k].project_fn@ by {
        assert(field_plan_for(a[k], m, c1, n1, fs[k]));
        assert(field_plan_for(b[k], m, c2, n2, fs[k]));
        assert(n1.spec_new_field_name(fs[k].name@) == n2.spec_new_field_name(fs[k].name@));
        assert(n1.spec_project_name(fs[k].name@) == n2.spec_project_name(fs[k].name@));
    }
}

proof fn lemma_same_slot(a: Slot, b: Slot, m: Manifest, c1: Catalog, c2: Catalog, ty: Seq<char>)
    requires
        slot_for(a, m, c1, ty),
        slot_for(b, m, c2, ty),
        texts(c1.type_names@) == texts(c2.type_names@),
        texts(c1.raw_names@) == texts(c2.raw_names@),
        covers(c1, m),
        covers(c2, m),
    ensures
        same_slot(a, b),
{
    if let Some(i) = find_type(m, ty) {
        assert(first_key_at(m.types@, ty, i)) by {
            let w = choose|j: int| first_key_at(m.types@, ty, j);
            assert(first_key_at(m.types@, ty, w));
        }
        assert(texts(c1.type_names@)[i] == c1.type_names@[i]@);
        assert(texts(c2.type_names@)[i] == c2.type_names@[i]@);
        assert(texts(c1.raw_names@)[i] == c1.raw_names@[i]@);
        assert(texts(c2.raw_names@)[i] == c2.raw_names@[i]@);
    }
}

/// Two generation runs over the same manifest, from the same emitter state,
/// with naming policies that name alike (any two default namers do), give the
/// same catalog and the same plans, text for text: the output depends on
/// nothing else.
pub proof fn lemma_generation_deterministic<N: Namer>(
    start: Rust,
    run1: Rust,
    run2: Rust,
    c1: Catalog,
    c2: Catalog,
    m: Manifest,
    n1: N,
    n2: N,
)
    requires
        namers_agree(n1, n2, m),
        catalog_of(c1, n1, m),
        catalog_of(c2, n2, m),
        emitted(start, run1, m, c1, n1),
        emitted(start, run2, m, c2, n2),
    ensures
        texts(c1.type_names@) == texts(c2.type_names@),
        texts(c1.raw_names@) == texts(c2.raw_names@),
        run1.backend == run2.backend,
        run1.types@.len() == run2.types@.len(),
        forall|k: int|
            0 <= k < run1.types@.len() ==> same_type_plan(#[trigger] run1.types@[k], run2.types@[k]),
        run1.entries@.len() == run2.entries@.len(),
        forall|k: int|
            0 <= k < run1.entries@.len() ==> same_entry_plan(#[trigger] run1.entries@[k], run2.entries@[k]),
{
    assert forall|i: int| 0 <= i < m.types@.len() implies c1.type_names@[i]@ == c2.type_names@[i]@
        && c1.raw_names@[i]@ == c2.raw_names@[i]@ by {
        assert(c1.type_names@[i] == c1.type_names@[i]);
        assert(c2.type_names@[i] == c2.type_names@[i]);
        assert(n1.spec_type_name(m.types@[i].0@, m.types@[i].1, m) == n2.spec_type_name(
            m.types@[i].0@,
            m.types@[i].1,
            m,
        ));
    }
    assert(texts(c1.type_names@) =~= texts(c2.type_names@));
    assert(texts(c1.raw_names@) =~= texts(c2.raw_names@));
    lemma_positions(m, true, m.types@.len());
    lemma_positions(m, false, m.types@.len());
    let n0 = start.types@.len();
    let na = array_positions(m).len();
    assert forall|k: int| 0 <= k < run1.types@.len() implies same_type_plan(#[trigger] run1.types@[k], run2.types@[k]) by {
        if k < n0 {
            assert(run1.types@[k] == run1.types@.subrange(0, n0 as int)[k]);
            assert(run2.types@[k] == run2.types@.subrange(0, n0 as int)[k]);
            lemma_same_type_plan_refl(run1.types@[k]);
        } else if k < n0 + na {
            let q = k - n0;
            let i = array_positions(m)[q];
            assert(type_plan_for(run1.types@[n0 + q], m, c1, n1, i));
            assert(type_plan_for(run2.types@[n0 + q], m, c2, n2, i));
            lemma_same_type_plan(run1.types@[k], run2.types@[k], m, c1, c2, n1, n2, i);
        } else {
            let q = k - n0 - na;
            let i = opaque_positions(m)[q];
            assert(type_plan_for(run1.types@[n0 + na + q], m, c1, n1, i));
            assert(type_plan_for(run2.types@[n0 + na + q], m, c2, n2, i));
            lemma_same_type_plan(run1.types@[k], run2.types@[k], m, c1, c2, n1, n2, i);
        }
    }
    let e0 = start.entries@.len();
    assert forall|k: int| 0 <= k < run1.entries@.len() implies same_entry_plan(#[trigger] run1.entries@[k], run2.entries@[k]) by {
        if k < e0 {
            assert(run1.entries@[k] == run1.entries@.subrange(0, e0 as int)[k]);
            assert(run2.entries@[k] == run2.entries@.subrange(0, e0 as int)[k]);
        } else {
            let i = k - e0;
            let e = m.entry_points@[i].1;
            assert(entry_plan_for(run1.entries@[e0 + i], m, c1, m.entry_points@[i].0@, e));
            assert(entry_plan_for(run2.entries@[e0 + i], m, c2, m.entry_points@[i].0@, e));
            let a = run1.entries@[k];
            let b = run2.entries@[k];
            assert forall|j: int| 0 <= j < a.outputs@.len() implies same_slot(#[trigger] a.outputs@[j], b.outputs@[j]) by {
                lemma_same_slot(a.outputs@[j], b.outputs@[j], m, c1, c2, e.outputs@[j].ty@);
            }
            assert forall|j: int| 0 <= j < a.inputs@.len() implies same_slot(#[trigger] a.inputs@[j], b.inputs@[j]) by {
                lemma_same_slot(a.inputs@[j], b.inputs@[j], m, c1, c2, e.inputs@[j].ty@);
            }
        }
    }
}

proof fn lemma_same_type_plan_refl(p: TypePlan)
    ensures
        same_type_plan(p, p),
{
}

proof fn lemma_same_type_plan<N: Namer>(
    a: TypePlan,
    b: TypePlan,
    m: Manifest,
    c1: Catalog,
    c2: Catalog,
    n1: N,
    n2: N,
    i: int,
)
    requires
        0 <= i < m.types@.len(),
        type_plan_for(a, m, c1, n1, i),
        type_plan_for(b, m, c2, n2, i),
        namers_agree(n1, n2, m),
        texts(c1.type_names@) == texts(c2.type_names@),
        texts(c1.raw_names@) == texts(c2.raw_names@),
        covers(c1, m),
        covers(c2, m),
    ensures
        same_type_plan(a, b),
{
    assert(texts(c1.type_names@)[i] == c1.type_names@[i]@);
    assert(texts(c2.type_names@)[i] == c2.type_names@[i]@);
    assert(texts(c1.raw_names@)[i] == c1.raw_names@[i]@);
    assert(texts(c2.raw_names@)[i] == c2.raw_names@[i]@);
    match m.types@[i].1 {
        Type::Array(_) => {},
        Type::Opaque(o) => match o.options {
            OpaqueOptions::Record(r) => {
                if let (TypePlan::Record(_, x), TypePlan::Record(_, y)) = (a, b) {
                    lemma_same_fields(x.fields@, y.fields@, m, c1, c2, n1, n2, r.fields@);
                }
            },
            OpaqueOptions::Sum(_) => {},
            OpaqueOptions::OpaqueArray(oa) | OpaqueOptions::RecordArray(oa) => {
                if let (TypePlan::OpaqueArray(_, x), TypePlan::OpaqueArray(_, y)) = (a, b) {
                    if let Some(j) = find_type(m, oa.elemtype@) {
                        assert(first_key_at(m.types@, oa.elemtype@, j)) by {
                            let w = choose|q: int| first_key_at(m.types@, oa.elemtype@, q);
                            assert(first_key_at(m.types@, oa.elemtype@, w));
                        }
                        assert(texts(c1.type_names@)[j] == c1.type_names@[j]@);
                        assert(texts(c2.type_names@)[j] == c2.type_names@[j]@);
                        assert(texts(c1.raw_names@)[j] == c1.raw_names@[j]@);
                        assert(texts(c2.raw_names@)[j] == c2.raw_names@[j]@);
                    }
                    if let (Some(r), Some(xz), Some(yz)) = (oa.record, x.zip, y.zip) {
                        lemma_same_fields(xz.fields@, yz.fields@, m, c1, c2, n1, n2, r.fields@);
                    }
                }
            },
        },
    }
}

/// The Rust emitter: it gathers, phase by phase, what each template of the
/// generated bindings is filled with.
#[derive(Debug, Clone)]
pub struct Rust {
    /// The backend whose configuration hooks the bindings expose; set by the
    /// setup phase.
    pub backend: Option<Backend>,
    /// One plan per type, in manifest order.
    pub types: Vec<TypePlan>,
    /// One plan per entry point, in manifest order.
    pub entries: Vec<EntryPlan>,
    /// Whether entry points become methods of the context.
    pub entry_points_within_context: bool,
}

impl Default for Rust {
    fn default() -> (r: Rust)
        ensures
            r.backend is None,
            r.types@.len() == 0,
            r.entries@.len() == 0,
            !r.entry_points_within_context,
    {
        Rust::new()
    }
}

impl Rust {
    /// The emitter for an output file, chosen by its extension: `rs` selects
    /// this one; any other extension, or none, selects no emitter.
    pub fn detect(output_path: &str) -> (r: Option<Rust>)
        ensures
            r is Some == (extension_of(output_path@) == Some("rs"@)),
            r matches Some(e) ==> e.backend is None && e.types@.len() == 0 && e.entries@.len()
                == 0 && !e.entry_points_within_context,
    {
        match path_extension(output_path) {
            Some(ext) => if same_text(ext.as_str(), "rs") {
                Some(Rust::new())
            } else {
                None
            },
            None => None,
        }
    }

    /// An emitter with nothing gathered yet.
    pub fn new() -> (r: Rust)
        ensures
            r.backend is None,
            r.types@.len() == 0,
            r.entries@.len() == 0,
            !r.entry_points_within_context,
    {
        Rust { backend: None, types: Vec::new(), entries: Vec::new(), entry_points_within_context: false }
    }

    fn field_plans<N: Namer>(m: &Manifest, c: &Catalog, namer: &N, fields: &Vec<Field>) -> (r: Vec<FieldPlan>)
        requires
            covers(*c, *m),
        ensures
            field_plans_for(r@, *m, *c, *namer, fields@),
    {
        let mut r: Vec<FieldPlan> = Vec::new();
        let mut k: usize = 0;
        while k < fields.len()
            invariant
                covers(*c, *m),
                k <= fields@.len(),
                r@.len() == k,
                forall|j: int| 0 <= j < k ==> field_plan_for(#[trigger] r@[j], *m, *c, *namer, fields@[j]),
            decreases fields@.len() - k,
        {
            let f = &fields[k];
            r.push(FieldPlan {
                name: f.name.clone(),
                param_name: namer.new_field_name(f.name.as_str(), m),
                project_name: namer.project_name(f.name.as_str(), m),
                project_fn: f.project.clone(),
                slot: slot_of(m, c, f.ty.as_str()),
            });
            k = k + 1;
        }
        r
    }

    /// Plans the type at position `i` of the type map.
    pub fn type_plan<N: Namer>(m: &Manifest, c: &Catalog, namer: &N, i: usize) -> (r: TypePlan)
        requires
            covers(*c, *m),
            i < m.types@.len(),
            type_refs_resolve(*m, m.types@[i as int].1),
        ensures
            type_plan_for(r, *m, *c, *namer, i as int),
    {
        let name = &m.types[i].0;
        match &m.types[i].1 {
            Type::Array(a) => TypePlan::Array(ArrayPlan {
                name: name.clone(),
                raw_type: c.raw_names[i].clone(),
                rust_type: c.type_names[i].clone(),
                rank: a.rank,
                elemtype: String::from_str(a.elemtype.to_str()),
                new_fn: a.ops.new.clone(),
                free_fn: a.ops.free.clone(),
                values_fn: a.ops.values.clone(),
                shape_fn: a.ops.shape.clone(),
                index_fn: a.ops.index.clone(),
                dim_params: numbered_list("dims[", "] as i64", a.rank),
                new_dim_args: numbered_list("dim", ": i64", a.rank),
                index_params: numbered_list("index[", "] as i64", a.rank),
                index_args: numbered_list("i", ": i64", a.rank),
            }),
            Type::Opaque(o) => {
                let op = OpaquePlan {
                    name: name.clone(),
                    raw_type: c.raw_names[i].clone(),
                    rust_type: c.type_names[i].clone(),
                    free_fn: o.ops.free.clone(),
                    store_fn: o.ops.store.clone(),
                    restore_fn: o.ops.restore.clone(),
                };
                match &o.options {
                    OpaqueOptions::Record(r) => TypePlan::Record(
                        op,
                        RecordPlan {
                            new_fn: r.new.clone(),
                            fields: Self::field_plans(m, c, namer, &r.fields),
                        },
                    ),
                    OpaqueOptions::Sum(_) => TypePlan::Sum(op),
                    OpaqueOptions::OpaqueArray(a) | OpaqueOptions::RecordArray(a) => {
                        let j = m.position_of_type(a.elemtype.as_str()).unwrap();
                        let zip = match &a.record {
                            Some(r) => Some(
                                ZipPlan {
                                    zip_fn: r.zip.clone(),
                                    fields: Self::field_plans(m, c, namer, &r.fields),
                                },
                            ),
                            None => None,
                        };
                        TypePlan::OpaqueArray(
                            op,
                            OpaqueArrayPlan {
                                rank: a.rank,
                                shape_fn: a.shape.clone(),
                                index_fn: a.index.clone(),
                                elem_rust: c.type_names[j].clone(),
                                elem_raw: c.raw_names[j].clone(),
                                index_args: numbered_list("i", ": i64", a.rank),
                                index_params: numbered_list("index[", "] as i64", a.rank),
                                zip,
                            },
                        )
                    },
                }
            },
        }
    }

    /// Plans the entry point `e` named `name`.
    pub fn entry_plan(m: &Manifest, c: &Catalog, name: &String, e: &Entry) -> (r: EntryPlan)
        requires
            covers(*c, *m),
        ensures
            entry_plan_for(r, *m, *c, name@, *e),
    {
        let mut outputs: Vec<Slot> = Vec::new();
        let mut k: usize = 0;
        while k < e.outputs.len()
            invariant
                covers(*c, *m),
                k <= e.outputs@.len(),
                outputs@.len() == k,
                forall|j: int| 0 <= j < k ==> slot_for(#[trigger] outputs@[j], *m, *c, e.outputs@[j].ty@),
            decreases e.outputs@.len() - k,
        {
            outputs.push(slot_of(m, c, e.outputs[k].ty.as_str()));
            k = k + 1;
        }
        let mut inputs: Vec<Slot> = Vec::new();
        let mut k: usize = 0;
        while k < e.inputs.len()
            invariant
                covers(*c, *m),
                k <= e.inputs@.len(),
                inputs@.len() == k,
                forall|j: int| 0 <= j < k ==> slot_for(#[trigger] inputs@[j], *m, *c, e.inputs@[j].ty@),
            decreases e.inputs@.len() - k,
        {
            inputs.push(slot_of(m, c, e.inputs[k].ty.as_str()));
            k = k + 1;
        }
        let ret = if e.outputs.len() == 0 {
            ReturnShape::Unit
        } else if e.outputs.len() == 1 {
            ReturnShape::Bare
        } else {
            ReturnShape::Tuple
        };
        EntryPlan { name: name.clone(), cfun: e.cfun.clone(), outputs, inputs, ret }
    }
    /// Runs a whole generation over `manifest` through this emitter (see
    /// [`crate::generate::generate`]); on success it holds, after what it held
    /// before, the plans of every array type, then of every opaque type, then
    /// of every entry point.
    pub fn generate<N: Namer>(&mut self, manifest: &Manifest, namer: &mut N) -> (r: Result<
        Catalog,
        Error,
    >)
        requires
            struct_names_ok(*manifest),
            old(namer).follows_conventions(*manifest),
        ensures
            final(namer).ready(*manifest),
            r is Ok == (refs_resolve(*manifest) && keys_distinct(*manifest) && catalog_builds(
                *final(namer),
                *manifest,
            )),
            !refs_resolve(*manifest) ==> r matches Err(Error::UnknownType(_)),
            r matches Err(Error::UnknownType(s)) ==> !has_type(*manifest, s@),
            refs_resolve(*manifest) && !keys_distinct(*manifest) ==> r matches Err(
                Error::DuplicateKey(_),
            ),
            r is Err ==> *final(self) == *old(self),
            r matches Ok(c) ==> catalog_of(c, *final(namer), *manifest) && names_pairwise_distinct(c) && emitted(
                *old(self),
                *final(self),
                *manifest,
                c,
                *final(namer),
            ),
    {
        let ghost start = *self;
        let r = generate(self, manifest, namer);
        proof {
            if r is Ok {
                let c = r->Ok_0;
                let states = choose|states: Seq<Rust>|
                    states[0] == start && states.last() == *self && ran_phases::<N, Rust>(
                        states,
                        *manifest,
                        c,
                        *namer,
                    );
                lemma_rust_phases(states, *manifest, c, *namer);
            }
        }
        r
    }
}

impl<N: Namer> Generate<N> for Rust {
    open spec fn set_up(&self, after: Rust, m: Manifest) -> bool {
        &&& after.backend == Some(m.backend)
        &&& after.types == self.types
        &&& after.entries == self.entries
        &&& after.entry_points_within_context == self.entry_points_within_context
    }

    open spec fn array_emitted(&self, after: Rust, m: Manifest, c: Catalog, namer: N, i: int) -> bool {
        type_step(*self, after, m, c, namer, i)
    }

    open spec fn opaque_emitted(&self, after: Rust, m: Manifest, c: Catalog, namer: N, i: int) -> bool {
        type_step(*self, after, m, c, namer, i)
    }

    open spec fn entry_emitted(&self, after: Rust, m: Manifest, c: Catalog, namer: N, k: int) -> bool {
        entry_step_of(*self, after, m, c, k)
    }

    /// Records the backend, whose configuration hooks the bindings expose.
    fn bindings(&mut self, manifest: &Manifest) {
        self.backend = Some(manifest.backend);
    }

    fn array_type(&mut self, manifest: &Manifest, catalog: &Catalog, namer: &N, i: usize) {
        proof {
            assert(type_refs_resolve(*manifest, manifest.types@[i as int].1));
        }
        let ghost before = self.types@;
        let p = Rust::type_plan(manifest, catalog, namer, i);
        self.types.push(p);
        proof {
            assert(self.types@.subrange(0, before.len() as int) =~= before);
        }
    }

    fn opaque_type(&mut self, manifest: &Manifest, catalog: &Catalog, namer: &N, i: usize) {
        proof {
            assert(type_refs_resolve(*manifest, manifest.types@[i as int].1));
        }
        let ghost before = self.types@;
        let p = Rust::type_plan(manifest, catalog, namer, i);
        self.types.push(p);
        proof {
            assert(self.types@.subrange(0, before.len() as int) =~= before);
        }
    }

    fn entry(&mut self, manifest: &Manifest, catalog: &Catalog, namer: &N, k: usize) {
        let p = Rust::entry_plan(
            manifest,
            catalog,
            &manifest.entry_points[k].0,
            &manifest.entry_points[k].1,
        );
        let ghost before = self.entries@;
        self.entries.push(p);
        proof {
            assert(self.entries@.subrange(0, before.len() as int) =~= before);
        }
    }
}

} // verus!
