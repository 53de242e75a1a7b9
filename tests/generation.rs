use futhark_bindgen::catalog::Catalog;
use futhark_bindgen::manifest::{
    ArrayOps, ArrayType, ElemType, Entry, Field, Input, OpaqueArray, OpaqueOps, OpaqueOptions,
    OpaqueType, Output, Record, RecordArray, Sum, Type,
};
use futhark_bindgen::naming::{convert_struct_name, first_uppercase, has_struct_name_markers, is_valid_name, DefaultNamer, Namer};
use futhark_bindgen::rust::{is_primitive, primitive_type_name, ReturnShape, Rust, TypePlan};
use futhark_bindgen::{generate, Backend, Error, Manifest, Package};

fn s(x: &str) -> String {
    x.to_string()
}

fn array(ctype: &str, rank: usize, elemtype: ElemType, prefix: &str) -> Type {
    Type::Array(ArrayType {
        ctype: s(ctype),
        rank,
        elemtype,
        ops: ArrayOps {
            free: format!("futhark_free_{prefix}"),
            index: format!("futhark_index_{prefix}"),
            new: format!("futhark_new_{prefix}"),
            shape: format!("futhark_shape_{prefix}"),
            values: format!("futhark_values_{prefix}"),
        },
    })
}

fn ops(prefix: &str) -> OpaqueOps {
    OpaqueOps {
        free: format!("futhark_free_{prefix}"),
        store: format!("futhark_store_{prefix}"),
        restore: format!("futhark_restore_{prefix}"),
    }
}

fn field(name: &str, ty: &str) -> Field {
    Field { name: s(name), project: format!("futhark_project_{name}"), ty: s(ty) }
}

fn record(ctype: &str, fields: Vec<Field>) -> Type {
    Type::Opaque(OpaqueType {
        ctype: s(ctype),
        ops: ops("rec"),
        options: OpaqueOptions::Record(Record { new: s("futhark_new_rec"), fields }),
    })
}

fn entry(cfun: &str, inputs: &[&str], outputs: &[&str]) -> Entry {
    Entry {
        cfun: s(cfun),
        outputs: outputs.iter().map(|t| Output { ty: s(t), unique: false }).collect(),
        inputs: inputs
            .iter()
            .enumerate()
            .map(|(i, t)| Input { name: format!("x{i}"), ty: s(t), unique: false })
            .collect(),
        tuning_params: vec![],
    }
}

fn manifest(types: Vec<(&str, Type)>, entries: Vec<(&str, Entry)>) -> Manifest {
    Manifest {
        backend: Backend::C,
        version: s("0.25.0"),
        entry_points: entries.into_iter().map(|(n, e)| (s(n), e)).collect(),
        types: types.into_iter().map(|(n, t)| (s(n), t)).collect(),
    }
}

fn run(m: &Manifest) -> (Rust, Result<Catalog, Error>) {
    let mut gen = Rust::new();
    let mut namer = DefaultNamer::new();
    let r = gen.generate(m, &mut namer);
    (gen, r)
}

#[test]
fn backend_names_round_trip() {
    let all = [
        Backend::C,
        Backend::Cuda,
        Backend::OpenCl,
        Backend::Multicore,
        Backend::Ispc,
        Backend::Hip,
    ];
    let names = ["c", "cuda", "opencl", "multicore", "ispc", "hip"];
    for (b, n) in all.iter().zip(names.iter()) {
        assert_eq!(b.to_str(), *n);
    }
    assert_eq!(Backend::from_name("OpenCL"), Some(Backend::OpenCl));
    assert_eq!(Backend::from_name("CUDA"), Some(Backend::Cuda));
    assert_eq!(Backend::from_name("multicore"), Some(Backend::Multicore));
    assert_eq!(Backend::from_name("hip"), None);
    assert_eq!(Backend::from_name("rust"), None);
    assert_eq!(Backend::from_name(""), None);
}

#[test]
fn backend_libraries_and_hooks() {
    assert_eq!(Backend::Cuda.required_c_libs(), &["cuda", "cudart", "nvrtc", "m"]);
    assert_eq!(Backend::OpenCl.required_c_libs(), &["OpenCL", "m"]);
    assert_eq!(Backend::Multicore.required_c_libs(), &["pthread", "m"]);
    assert_eq!(Backend::Ispc.required_c_libs(), &["pthread", "m"]);
    assert_eq!(Backend::Hip.required_c_libs(), &["hiprtc", "amdhip64"]);
    assert!(Backend::C.required_c_libs().is_empty());
    assert!(Backend::Multicore.has_thread_option());
    assert!(!Backend::Cuda.has_thread_option());
    assert!(Backend::Cuda.has_device_option());
    assert!(Backend::OpenCl.has_device_option());
    assert!(!Backend::C.has_device_option());
}

#[test]
fn elem_type_names() {
    assert_eq!(ElemType::I32.to_str(), "i32");
    assert_eq!(ElemType::U8.to_str(), "u8");
    assert_eq!(ElemType::F16.to_str(), "f16");
    assert_eq!(ElemType::Bool.to_str(), "bool");
    assert!(futhark_bindgen::manifest::is_scalar("u64"));
    assert!(!futhark_bindgen::manifest::is_scalar("[]u64"));
}

#[test]
fn first_uppercase_cases() {
    assert_eq!(first_uppercase("i32"), "I32");
    assert_eq!(first_uppercase("bool"), "Bool");
    assert_eq!(first_uppercase("Abc"), "Abc");
    assert_eq!(first_uppercase(""), "");
    assert_eq!(first_uppercase("éa"), "éa");
}

#[test]
fn struct_names() {
    assert_eq!(convert_struct_name("struct futhark_i32_1d *"), "futhark_i32_1d");
    assert_eq!(convert_struct_name("struct\tx\t*"), "x");
    assert_eq!(convert_struct_name("struct  *"), "");
    assert!(has_struct_name_markers("struct  *"));
    assert!(!has_struct_name_markers("futhark_i32_1d"));
    assert!(!has_struct_name_markers("struct futhark_i32_1d*"));
    assert!(!has_struct_name_markers("structxfoo *"));
    assert!(!has_struct_name_markers("struct *"));
    assert!(!has_struct_name_markers(""));
}

#[test]
fn valid_names() {
    assert!(is_valid_name("point"));
    assert!(!is_valid_name("[]i32"));
    assert!(!is_valid_name("(i32, f32)"));
    assert!(!is_valid_name("{x: i32}"));
    assert!(!is_valid_name("#foo"));
}

#[test]
fn field_names_get_a_letter_before_digits() {
    let namer = DefaultNamer::default();
    let m = manifest(vec![], vec![]);
    assert_eq!(namer.project_name("0", &m), "f0");
    assert_eq!(namer.new_field_name("1", &m), "f1");
    assert_eq!(namer.project_name("x", &m), "x");
    assert_eq!(namer.new_field_name("", &m), "");
}

#[test]
fn default_names() {
    let m = manifest(
        vec![
            ("[][]f32", array("struct futhark_f32_2d *", 2, ElemType::F32, "f32_2d")),
            ("[]i32", array("struct futhark_i32_1d *", 12, ElemType::I32, "i32_1d")),
            ("my_point", record("struct futhark_opaque_my_point *", vec![field("x", "i32")])),
            ("(i32, bool)", record("struct futhark_opaque_tup *", vec![field("0", "i32")])),
            (
                "[]my_point",
                Type::Opaque(OpaqueType {
                    ctype: s("struct futhark_opaque_arr_my_point *"),
                    ops: ops("arr"),
                    options: OpaqueOptions::OpaqueArray(OpaqueArray {
                        rank: 1,
                        elemtype: s("my_point"),
                        index: s("futhark_index_arr"),
                        shape: s("futhark_shape_arr"),
                        record: None,
                    }),
                }),
            ),
            (
                "[](i32, bool)",
                Type::Opaque(OpaqueType {
                    ctype: s("struct futhark_opaque_arr_tup *"),
                    ops: ops("arr_tup"),
                    options: OpaqueOptions::OpaqueArray(OpaqueArray {
                        rank: 3,
                        elemtype: s("(i32, bool)"),
                        index: s("futhark_index_arr_tup"),
                        shape: s("futhark_shape_arr_tup"),
                        record: None,
                    }),
                }),
            ),
        ],
        vec![],
    );
    let (_, r) = run(&m);
    let c = r.unwrap();
    assert_eq!(
        c.type_names,
        vec![
            s("F32Array2d"),
            s("I32Array12d"),
            s("MyPoint"),
            s("Unnamed_tup"),
            s("MyPointArray1d"),
            s("Unnamed_tupArray3d"),
        ]
    );
    assert_eq!(
        c.raw_names,
        vec![
            s("futhark_f32_2d"),
            s("futhark_i32_1d"),
            s("futhark_opaque_my_point"),
            s("futhark_opaque_tup"),
            s("futhark_opaque_arr_my_point"),
            s("futhark_opaque_arr_tup"),
        ]
    );
}

#[test]
fn generated_names_are_distinct() {
    let m = manifest(
        vec![
            ("[]i32", array("struct futhark_i32_1d *", 1, ElemType::I32, "i32_1d")),
            ("[][]i32", array("struct futhark_i32_2d *", 2, ElemType::I32, "i32_2d")),
            ("[]u8", array("struct futhark_u8_1d *", 1, ElemType::U8, "u8_1d")),
            ("pair", record("struct futhark_opaque_pair *", vec![field("0", "i32")])),
        ],
        vec![],
    );
    let (_, r) = run(&m);
    let names = r.unwrap().type_names;
    for i in 0..names.len() {
        for j in 0..names.len() {
            if i != j {
                assert_ne!(names[i], names[j]);
            }
        }
    }
}

#[test]
fn dangling_reference_fails_before_output() {
    let m = manifest(
        vec![("[]i32", array("struct futhark_i32_1d *", 1, ElemType::I32, "i32_1d"))],
        vec![("main", entry("futhark_entry_main", &["[]u8"], &["i32"]))],
    );
    let (gen, r) = run(&m);
    match r {
        Err(Error::UnknownType(t)) => assert_eq!(t, "[]u8"),
        other => panic!("unexpected {:?}", other),
    }
    assert!(gen.backend.is_none());
    assert!(gen.types.is_empty());
    assert!(gen.entries.is_empty());
}

#[test]
fn dangling_field_reference_fails() {
    let m = manifest(
        vec![("point", record("struct futhark_opaque_point *", vec![field("x", "vec3")]))],
        vec![],
    );
    let (gen, r) = run(&m);
    assert!(matches!(r, Err(Error::UnknownType(ref t)) if t == "vec3"));
    assert!(gen.types.is_empty());
}

#[test]
fn missing_struct_marker_fails() {
    let m = manifest(
        vec![("[]i32", array("futhark_i32_1d", 1, ElemType::I32, "i32_1d"))],
        vec![],
    );
    assert!(matches!(m.check_struct_names(), Err(Error::MissingMarker(ref t)) if t == "futhark_i32_1d"));
    assert!(!has_struct_name_markers("futhark_i32_1d"));
    assert!(has_struct_name_markers("struct futhark_i32_1d *"));
    let ok = manifest(
        vec![("[]i32", array("struct futhark_i32_1d *", 1, ElemType::I32, "i32_1d"))],
        vec![],
    );
    assert!(ok.check_struct_names().is_ok());
}

#[test]
fn anonymous_record_without_prefix_fails() {
    let m = manifest(
        vec![("(i32, i32)", record("struct pair *", vec![field("0", "i32")]))],
        vec![],
    );
    let namer = DefaultNamer::new();
    assert!(matches!(namer.check_conventions(&m), Err(Error::MissingMarker(ref t)) if t == "struct pair *"));
    let named = manifest(
        vec![("pair", record("struct pair *", vec![field("0", "i32")]))],
        vec![],
    );
    assert!(namer.check_conventions(&named).is_ok());
}

#[test]
fn element_type_cycle_fails() {
    let m = manifest(
        vec![(
            "[]loop",
            Type::Opaque(OpaqueType {
                ctype: s("struct futhark_opaque_loop *"),
                ops: ops("loop"),
                options: OpaqueOptions::OpaqueArray(OpaqueArray {
                    rank: 1,
                    elemtype: s("[]loop"),
                    index: s("futhark_index_loop"),
                    shape: s("futhark_shape_loop"),
                    record: None,
                }),
            }),
        )],
        vec![],
    );
    let (_, r) = run(&m);
    assert!(matches!(r, Err(Error::Unnameable(ref k)) if k == "[]loop"));
}

#[test]
fn array_rank_gives_dimension_count() {
    let m = manifest(
        vec![("[][][]u16", array("struct futhark_u16_3d *", 3, ElemType::U16, "u16_3d"))],
        vec![],
    );
    let (gen, r) = run(&m);
    r.unwrap();
    match &gen.types[0] {
        TypePlan::Array(a) => {
            assert_eq!(a.rank, 3);
            assert_eq!(a.elemtype, "u16");
            assert_eq!(a.rust_type, "U16Array3d");
            assert_eq!(a.dim_params, vec!["dims[0] as i64", "dims[1] as i64", "dims[2] as i64"]);
            assert_eq!(a.new_dim_args, vec!["dim0: i64", "dim1: i64", "dim2: i64"]);
            assert_eq!(a.index_params, vec!["index[0] as i64", "index[1] as i64", "index[2] as i64"]);
            assert_eq!(a.index_args, vec!["i0: i64", "i1: i64", "i2: i64"]);
        }
        other => panic!("unexpected {:?}", other),
    }
}

#[test]
fn rank_zero_array_has_no_dimensions() {
    let m = manifest(
        vec![("i64_scalar", array("struct futhark_i64_0d *", 0, ElemType::I64, "i64_0d"))],
        vec![],
    );
    let (gen, r) = run(&m);
    r.unwrap();
    match &gen.types[0] {
        TypePlan::Array(a) => {
            assert!(a.dim_params.is_empty());
            assert!(a.new_dim_args.is_empty());
            assert!(a.index_args.is_empty());
        }
        other => panic!("unexpected {:?}", other),
    }
}

#[test]
fn output_arity_collapses() {
    let m = manifest(
        vec![("[]f64", array("struct futhark_f64_1d *", 1, ElemType::F64, "f64_1d"))],
        vec![
            ("none", entry("futhark_entry_none", &["i32"], &[])),
            ("one", entry("futhark_entry_one", &[], &["[]f64"])),
            ("three", entry("futhark_entry_three", &["[]f64", "f16"], &["i32", "[]f64", "bool"])),
        ],
    );
    let (gen, r) = run(&m);
    r.unwrap();
    assert_eq!(gen.entries.len(), 3);
    assert_eq!(gen.entries[0].ret, ReturnShape::Unit);
    assert!(gen.entries[0].outputs.is_empty());
    assert_eq!(gen.entries[1].ret, ReturnShape::Bare);
    assert_eq!(gen.entries[1].outputs.len(), 1);
    assert!(gen.entries[1].outputs[0].handle);
    assert_eq!(gen.entries[1].outputs[0].rust_type, "F64Array1d");
    let three = &gen.entries[2];
    assert_eq!(three.ret, ReturnShape::Tuple);
    assert_eq!(three.outputs.len(), 3);
    assert!(!three.outputs[0].handle);
    assert_eq!(three.outputs[0].rust_type, "i32");
    assert!(three.outputs[1].handle);
    assert_eq!(three.outputs[1].raw_type, "futhark_f64_1d");
    assert!(!three.outputs[2].handle);
    assert_eq!(three.outputs[2].rust_type, "bool");
    assert_eq!(three.inputs.len(), 2);
    assert!(three.inputs[0].handle);
    assert_eq!(three.inputs[1].rust_type, "half::f16");
    assert_eq!(three.inputs[1].raw_type, "half::f16");
}

#[test]
fn two_runs_are_identical() {
    let m = manifest(
        vec![
            ("[]i32", array("struct futhark_i32_1d *", 1, ElemType::I32, "i32_1d")),
            ("point", record("struct futhark_opaque_point *", vec![field("x", "i32"), field("v", "[]i32")])),
        ],
        vec![("main", entry("futhark_entry_main", &["point"], &["[]i32", "i32"]))],
    );
    let (g1, r1) = run(&m);
    let (g2, r2) = run(&m);
    assert_eq!(format!("{:?}", g1), format!("{:?}", g2));
    assert_eq!(format!("{:?}", r1), format!("{:?}", r2));
}

#[test]
fn scenario_array_and_scalar_entry() {
    let m = manifest(
        vec![("[]i32", array("struct futhark_i32_1d *", 1, ElemType::I32, "i32_1d"))],
        vec![("sum", entry("futhark_entry_sum", &["[]i32"], &["i32"]))],
    );
    let (gen, r) = run(&m);
    r.unwrap();
    assert_eq!(gen.backend, Some(Backend::C));
    match &gen.types[0] {
        TypePlan::Array(a) => {
            assert_eq!(a.rust_type, "I32Array1d");
            assert_eq!(a.raw_type, "futhark_i32_1d");
            assert_eq!(a.new_fn, "futhark_new_i32_1d");
            assert_eq!(a.values_fn, "futhark_values_i32_1d");
            assert_eq!(a.shape_fn, "futhark_shape_i32_1d");
            assert_eq!(a.free_fn, "futhark_free_i32_1d");
            assert_eq!(a.index_fn, "futhark_index_i32_1d");
            assert_eq!(a.new_dim_args, vec!["dim0: i64"]);
        }
        other => panic!("unexpected {:?}", other),
    }
    let e = &gen.entries[0];
    assert_eq!(e.name, "sum");
    assert_eq!(e.cfun, "futhark_entry_sum");
    assert_eq!(e.inputs.len(), 1);
    assert!(e.inputs[0].handle);
    assert_eq!(e.inputs[0].rust_type, "I32Array1d");
    assert_eq!(e.ret, ReturnShape::Bare);
    assert!(!e.outputs[0].handle);
    assert_eq!(e.outputs[0].rust_type, "i32");
}

#[test]
fn scenario_record_with_later_array_field() {
    let m = manifest(
        vec![
            (
                "point",
                record("struct futhark_opaque_point *", vec![field("x", "i32"), field("ys", "[]f64")]),
            ),
            ("[]f64", array("struct futhark_f64_1d *", 1, ElemType::F64, "f64_1d")),
        ],
        vec![],
    );
    let (gen, r) = run(&m);
    r.unwrap();
    assert!(matches!(&gen.types[0], TypePlan::Array(a) if a.rust_type == "F64Array1d"));
    match &gen.types[1] {
        TypePlan::Record(op, rp) => {
            assert_eq!(op.rust_type, "Point");
            assert_eq!(op.raw_type, "futhark_opaque_point");
            assert_eq!(rp.new_fn, "futhark_new_rec");
            assert_eq!(rp.fields.len(), 2);
            assert!(!rp.fields[0].slot.handle);
            assert_eq!(rp.fields[0].slot.rust_type, "i32");
            assert!(rp.fields[1].slot.handle);
            assert_eq!(rp.fields[1].slot.rust_type, "F64Array1d");
            assert_eq!(rp.fields[1].slot.raw_type, "futhark_f64_1d");
            assert_eq!(rp.fields[1].project_name, "ys");
            assert_eq!(rp.fields[1].project_fn, "futhark_project_ys");
        }
        other => panic!("unexpected {:?}", other),
    }
}

#[test]
fn sum_and_record_array_plans() {
    let m = manifest(
        vec![
            ("[]i32", array("struct futhark_i32_1d *", 1, ElemType::I32, "i32_1d")),
            (
                "[]pt",
                Type::Opaque(OpaqueType {
                    ctype: s("struct futhark_opaque_arr_pt *"),
                    ops: ops("arr_pt"),
                    options: OpaqueOptions::RecordArray(OpaqueArray {
                        rank: 1,
                        elemtype: s("pt"),
                        index: s("futhark_index_arr_pt"),
                        shape: s("futhark_shape_arr_pt"),
                        record: Some(RecordArray {
                            zip: s("futhark_zip_arr_pt"),
                            fields: vec![field("0", "[]i32")],
                        }),
                    }),
                }),
            ),
            ("pt", record("struct futhark_opaque_pt *", vec![field("0", "i32")])),
            (
                "maybe",
                Type::Opaque(OpaqueType {
                    ctype: s("struct futhark_opaque_maybe *"),
                    ops: ops("maybe"),
                    options: OpaqueOptions::Sum(Sum { variant: s("futhark_variant_maybe"), variants: vec![] }),
                }),
            ),
        ],
        vec![],
    );
    let (gen, r) = run(&m);
    r.unwrap();
    match &gen.types[1] {
        TypePlan::OpaqueArray(op, ap) => {
            assert_eq!(op.rust_type, "PtArray1d");
            assert_eq!(ap.elem_rust, "Pt");
            assert_eq!(ap.elem_raw, "futhark_opaque_pt");
            assert_eq!(ap.index_args, vec!["i0: i64"]);
            let z = ap.zip.as_ref().unwrap();
            assert_eq!(z.zip_fn, "futhark_zip_arr_pt");
            assert_eq!(z.fields[0].param_name, "f0");
            assert!(z.fields[0].slot.handle);
            assert_eq!(z.fields[0].slot.rust_type, "I32Array1d");
        }
        other => panic!("unexpected {:?}", other),
    }
    match &gen.types[3] {
        TypePlan::Sum(op) => {
            assert_eq!(op.rust_type, "Maybe");
            assert_eq!(op.store_fn, "futhark_store_maybe");
        }
        other => panic!("unexpected {:?}", other),
    }
}

#[test]
fn detect_by_extension() {
    assert!(Rust::detect("out/lib.rs").is_some());
    assert!(Rust::detect("bindings.ml").is_none());
    assert!(Rust::detect("bindings").is_none());
    assert!(Rust::detect("dir.rs/bindings").is_none());
}

#[test]
fn link_lines_for_backend() {
    let mut m = manifest(vec![], vec![]);
    m.backend = Backend::OpenCl;
    let p = Package { manifest: m, c_file: s("a.c"), h_file: s("a.h"), src: s("a.fut") };
    assert_eq!(
        p.link_lines("demo", true),
        vec![
            "cargo:rerun-if-changed=a.fut",
            "cargo:rustc-link-lib=futhark_generate_demo",
            "cargo:rustc-link-lib=framework=OpenCL",
            "cargo:rustc-link-lib=m",
        ]
    );
    assert_eq!(p.link_lines("demo", false)[2], "cargo:rustc-link-lib=OpenCL");
}

#[test]
fn primitive_names() {
    assert_eq!(primitive_type_name("f16"), "half::f16");
    assert_eq!(primitive_type_name("f32"), "f32");
    let m = manifest(
        vec![("[]i32", array("struct futhark_i32_1d *", 1, ElemType::I32, "i32_1d"))],
        vec![],
    );
    assert!(is_primitive("i32", &m));
    assert!(!is_primitive("[]i32", &m));
}

#[test]
fn empty_manifest_generates_setup_only() {
    let m = manifest(vec![], vec![]);
    let (gen, r) = run(&m);
    let c = r.unwrap();
    assert!(c.type_names.is_empty());
    assert!(c.raw_names.is_empty());
    assert_eq!(gen.backend, Some(Backend::C));
    assert!(gen.types.is_empty());
    assert!(gen.entries.is_empty());
}

#[test]
fn empty_type_key_is_unnameable() {
    let m = manifest(
        vec![("", array("struct futhark_i32_1d *", 1, ElemType::I32, "i32_1d"))],
        vec![],
    );
    let (gen, r) = run(&m);
    assert!(matches!(r, Err(Error::Unnameable(ref k)) if k.is_empty()));
    assert!(gen.backend.is_none());
}

#[test]
fn catalog_and_lookup() {
    let m = manifest(
        vec![
            ("[]i32", array("struct futhark_i32_1d *", 1, ElemType::I32, "i32_1d")),
            ("[]bool", array("struct futhark_bool_1d *", 1, ElemType::Bool, "bool_1d")),
        ],
        vec![("f", entry("futhark_entry_f", &["[]bool", "u32"], &["[]i32"]))],
    );
    assert_eq!(m.position_of_type("[]bool"), Some(1));
    assert_eq!(m.position_of_type("[]u8"), None);
    assert!(m.has_type_named("[]i32"));
    assert!(m.resolves_name("u32"));
    assert!(!m.resolves_name("[]u32"));
    assert!(m.check_refs().is_ok());
    let mut namer = DefaultNamer::new();
    namer.init(&m);
    let c = Catalog::build(&namer, &m).unwrap();
    assert_eq!(c.type_names, vec![s("I32Array1d"), s("BoolArray1d")]);
    assert_eq!(c.raw_names, vec![s("futhark_i32_1d"), s("futhark_bool_1d")]);
    assert_eq!(m.types[0].1.ctype(), "struct futhark_i32_1d *");
}

#[test]
fn entries_within_context_flag_is_kept() {
    let m = manifest(vec![], vec![("g", entry("futhark_entry_g", &[], &["f32"]))]);
    let mut gen = Rust::default();
    gen.entry_points_within_context = true;
    let mut namer = DefaultNamer::new();
    gen.generate(&m, &mut namer).unwrap();
    assert!(gen.entry_points_within_context);
    assert_eq!(gen.entries[0].outputs[0].rust_type, "f32");
    assert_eq!(gen.entries[0].ret, ReturnShape::Bare);
}

#[test]
fn array_types_are_planned_before_opaque_types() {
    let m = manifest(
        vec![
            (
                "maybe",
                Type::Opaque(OpaqueType {
                    ctype: s("struct futhark_opaque_maybe *"),
                    ops: ops("maybe"),
                    options: OpaqueOptions::Sum(Sum { variant: s("futhark_variant_maybe"), variants: vec![] }),
                }),
            ),
            ("[]u8", array("struct futhark_u8_1d *", 1, ElemType::U8, "u8_1d")),
            ("pt", record("struct futhark_opaque_pt *", vec![field("0", "[]u8")])),
            ("[][]u8", array("struct futhark_u8_2d *", 2, ElemType::U8, "u8_2d")),
        ],
        vec![],
    );
    let (gen, r) = run(&m);
    let c = r.unwrap();
    assert_eq!(c.type_names, vec![s("Maybe"), s("U8Array1d"), s("Pt"), s("U8Array2d")]);
    assert_eq!(gen.types.len(), 4);
    assert!(matches!(&gen.types[0], TypePlan::Array(a) if a.name == "[]u8"));
    assert!(matches!(&gen.types[1], TypePlan::Array(a) if a.name == "[][]u8"));
    assert!(matches!(&gen.types[2], TypePlan::Sum(o) if o.name == "maybe"));
    assert!(matches!(&gen.types[3], TypePlan::Record(o, _) if o.name == "pt"));
}

#[test]
fn duplicate_keys_fail_before_output() {
    let m = manifest(
        vec![
            ("[]i32", array("struct futhark_i32_1d *", 1, ElemType::I32, "i32_1d")),
            ("[]i32", array("struct futhark_i32_1d *", 1, ElemType::I32, "i32_1d")),
        ],
        vec![],
    );
    let (gen, r) = run(&m);
    assert!(matches!(r, Err(Error::DuplicateKey(ref k)) if k == "[]i32"));
    assert!(gen.types.is_empty());
    let m = manifest(
        vec![],
        vec![
            ("main", entry("futhark_entry_main", &[], &[])),
            ("main", entry("futhark_entry_main", &[], &[])),
        ],
    );
    assert!(matches!(m.check_keys(), Err(Error::DuplicateKey(ref k)) if k == "main"));
}

#[test]
fn orchestrator_drives_the_rust_emitter() {
    let m = manifest(
        vec![("[]i32", array("struct futhark_i32_1d *", 1, ElemType::I32, "i32_1d"))],
        vec![("f", entry("futhark_entry_f", &["[]i32"], &["[]i32", "i32"]))],
    );
    let mut gen = Rust::new();
    let mut namer = DefaultNamer::new();
    let c = generate(&mut gen, &m, &mut namer).unwrap();
    assert_eq!(c.type_names, vec![s("I32Array1d")]);
    assert_eq!(gen.backend, Some(Backend::C));
    assert_eq!(gen.types.len(), 1);
    assert_eq!(gen.entries[0].ret, ReturnShape::Tuple);
    assert_eq!(gen.entries[0].outputs.len(), 2);
}

#[test]
fn colliding_names_fail_before_output() {
    let m = manifest(
        vec![
            ("[a", array("struct futhark_i32_1d_a *", 1, ElemType::I32, "a")),
            ("[b", array("struct futhark_i32_1d_b *", 1, ElemType::I32, "b")),
        ],
        vec![],
    );
    let (gen, r) = run(&m);
    assert!(matches!(r, Err(Error::DuplicateName(ref n)) if n == "I32Array1d"));
    assert!(gen.types.is_empty());
    assert!(gen.backend.is_none());
    let m = manifest(
        vec![
            ("foo_bar", record("struct futhark_opaque_foo_bar *", vec![field("0", "i32")])),
            ("fooBar", record("struct futhark_opaque_fooBar *", vec![field("0", "i32")])),
        ],
        vec![],
    );
    let (_, r) = run(&m);
    assert!(matches!(r, Err(Error::DuplicateName(ref n)) if n == "FooBar"));
}
