use omega::checked::NumberValue;
use omega::codegen::backend::{
    cranelift_opt_setting, llvm_opt_level, triple_for, triple_parts, BackendKind, Effort,
    Environment, ObjectFormat, Vendor,
};
use omega::codegen::constants::{bits_of, hash_const_element};
use omega::codegen::float_bits::narrow;
use omega::codegen::inline_asm::{
    digit_prefix_len, ident_prefix_len, register_class, render_template, status_clobbers,
    Resolution,
};
use omega::codegen::options::OptLevel;
use omega::codegen::symbol::SymbolRegistry;
use omega::hir::{HirId, ModuleId};
use omega::layout::{payload_chunks, place_field, round_up, stack_align_shift, Leaf};
use omega::resolved_type::{ConstValue, ResolvedType};
use omega::syntax::Ident;
use omega::target::{Arch, Os, Target};

fn id(local: u32) -> HirId {
    HirId {
        module: ModuleId(0),
        local,
    }
}

#[test]
fn floats_narrow_as_the_machine_narrows_them() {
    let mut samples: Vec<f64> = vec![
        0.0,
        -0.0,
        1.0,
        -1.5,
        0.1,
        1.0 / 3.0,
        f64::MAX,
        f64::MIN,
        f64::MIN_POSITIVE,
        f64::INFINITY,
        f64::NEG_INFINITY,
        f32::MAX as f64,
        f32::MIN_POSITIVE as f64,
        3.4028235677973366e38,
        1e-45,
        7.006492321624085e-46,
        7.006492321624086e-46,
        1.1754942106924411e-38,
        16777217.0,
        16777219.0,
    ];
    let mut state = 0x9e37_79b9_7f4a_7c15u64;
    for _ in 0..2000 {
        state = state.wrapping_mul(6364136223846793005).wrapping_add(1442695040888963407);
        samples.push(f64::from_bits(state));
        // One whose exponent a float has.
        let exponent = 1023 - 160 + (state >> 11) % 300;
        samples.push(f64::from_bits((state & 0x800f_ffff_ffff_ffff) | (exponent << 52)));
    }
    for sample in samples {
        if sample.is_nan() {
            continue;
        }
        assert_eq!(
            narrow(sample.to_bits()),
            (sample as f32).to_bits(),
            "{sample:e}"
        );
    }
    assert!(f32::from_bits(narrow(f64::NAN.to_bits())).is_nan());
}

#[test]
fn numbers_have_the_bits_of_their_width() {
    assert_eq!(bits_of(&NumberValue::Signed(-1), 8), u64::MAX);
    assert_eq!(bits_of(&NumberValue::Unsigned(7), 4), 7);
    assert_eq!(
        bits_of(&NumberValue::Float(0.1f64.to_bits()), 4),
        u64::from(0.1f32.to_bits())
    );
    assert_eq!(
        bits_of(&NumberValue::Float(0.1f64.to_bits()), 8),
        0.1f64.to_bits()
    );
}

#[test]
fn a_constant_is_identified_by_its_bytes() {
    let mut out: Vec<u8> = Vec::new();
    hash_const_element(
        &mut out,
        &ConstValue::Str("ab".to_string()),
        &ResolvedType::Str { mutable: false },
        8,
    );
    assert_eq!(out, [2, 0, 0, 0, 0, 0, 0, 0, b'a', b'b']);
    let mut out: Vec<u8> = Vec::new();
    hash_const_element(
        &mut out,
        &ConstValue::Number(NumberValue::Signed(-2)),
        &ResolvedType::I16,
        8,
    );
    assert_eq!(out, [0xfe, 0xff]);
}

#[test]
fn templates_bind_names_and_numbers() {
    let positional = vec![Resolution::Reg(0), Resolution::CompText("8".to_string())];
    let named = vec![(Ident::new("count"), Resolution::CompText("8".to_string()))];
    assert_eq!(
        render_template("add $0, $count; $$1 ${x}", &positional, &named).unwrap(),
        "add $0, 8; $$1 ${x}"
    );
    assert_eq!(render_template("$1!", &positional, &named).unwrap(), "8!");
    assert!(render_template("$2", &positional, &named).is_none());
    assert!(render_template("$nothing", &positional, &named).is_none());
    let chars: Vec<char> = "ab9-12".chars().collect();
    assert_eq!(ident_prefix_len(&chars, 0), Some(3));
    assert_eq!(ident_prefix_len(&chars, 2), None);
    assert_eq!(digit_prefix_len(&chars, 4), Some(2));
    assert_eq!(digit_prefix_len(&chars, 0), None);
}

#[test]
fn registers_are_classed_by_architecture_and_kind() {
    assert_eq!(register_class(Arch::X86_64, Leaf::I32), "r");
    assert_eq!(register_class(Arch::X86_64, Leaf::F32), "x");
    assert_eq!(register_class(Arch::Armv7, Leaf::F64), "t");
    assert_eq!(register_class(Arch::Aarch64, Leaf::F64), "w");
    assert_eq!(register_class(Arch::Riscv64, Leaf::F64), "f");
    assert_eq!(register_class(Arch::Avr, Leaf::F32), "r");
    assert_eq!(
        status_clobbers(Arch::X86),
        ["~{dirflag}", "~{fpsr}", "~{flags}"]
    );
    assert!(status_clobbers(Arch::Avr).is_empty());
}

#[test]
fn triples_name_vendor_system_and_format() {
    let target = |arch, os| Target { arch, os };
    assert_eq!(
        triple_for(target(Arch::X86_64, Os::Linux)),
        "x86_64-unknown-linux-gnu"
    );
    assert_eq!(
        triple_for(target(Arch::X86, Os::Windows)),
        "i686-pc-windows-msvc"
    );
    assert_eq!(
        triple_for(target(Arch::Aarch64, Os::MacOs)),
        "aarch64-apple-macosx"
    );
    assert_eq!(
        triple_for(target(Arch::Riscv32, Os::Freestanding)),
        "riscv32-unknown-none-elf"
    );
    let parts = triple_parts(target(Arch::X86_64, Os::Windows));
    assert_eq!(parts.vendor, Vendor::Pc);
    assert_eq!(parts.environment, Environment::Msvc);
    assert_eq!(parts.format, ObjectFormat::Coff);
}

#[test]
fn backends_are_named_and_limited() {
    for backend in BackendKind::all() {
        assert_eq!(backend.name().parse(), Ok(backend));
        assert!(backend.supports(Target::default()));
    }
    assert_eq!(
        BackendKind::parse("gcc").unwrap_err(),
        "unknown backend 'gcc' (available: cranelift, llvm)"
    );
    let avr = Target {
        arch: Arch::Avr,
        os: Os::Freestanding,
    };
    assert!(!BackendKind::Cranelift.supports(avr));
    assert!(BackendKind::Llvm.supports(avr));
    assert_eq!(cranelift_opt_setting(OptLevel::O0), "none");
    assert_eq!(cranelift_opt_setting(OptLevel::O2), "speed");
    assert_eq!(cranelift_opt_setting(OptLevel::O3), "speed_and_size");
    assert_eq!(llvm_opt_level(OptLevel::O0), Effort::Nothing);
    assert_eq!(llvm_opt_level(OptLevel::O3), Effort::Aggressive);
}

#[test]
fn a_symbol_belongs_to_whoever_claims_it_first() {
    let mut symbols = SymbolRegistry::default();
    assert!(symbols.register("main", id(1)).is_ok());
    assert!(symbols.register("main", id(1)).is_ok());
    assert!(symbols.register("main", id(2)).unwrap_err().contains("'main'"));
    assert!(symbols.register_function("other", id(2)).is_ok());
    assert!(symbols
        .register_function("other", id(3))
        .unwrap_err()
        .contains("'other'"));
}

#[test]
fn fields_are_placed_at_their_alignment_and_in_chunks() {
    assert_eq!(round_up(5, 4), 8);
    assert_eq!(round_up(8, 4), 8);
    assert_eq!(round_up(5, 0), 5);
    assert_eq!(place_field(1, 1, 4, 1), 1);
    assert_eq!(place_field(2, 1, 4, 4), 4);
    assert_eq!(place_field(2, 1, 2, 4), 2);
    assert_eq!(place_field(1, 8, 8, 1), 8);
    assert_eq!(
        payload_chunks(15),
        [Leaf::I64, Leaf::I32, Leaf::I16, Leaf::I8]
    );
    assert_eq!(stack_align_shift(1), 4);
    assert_eq!(stack_align_shift(64), 6);
}
