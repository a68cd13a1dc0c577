use omega::codegen::backend::BackendKind;
use omega::codegen::options::{EmitKind, OptLevel};

#[test]
fn parses_and_displays_optimization_levels() {
    for (source, level) in [
        ("0", OptLevel::O0),
        ("1", OptLevel::O1),
        ("2", OptLevel::O2),
        ("3", OptLevel::O3),
    ] {
        assert_eq!(source.parse(), Ok(level));
        assert_eq!(level.to_string(), source);
    }
    assert!("fast".parse::<OptLevel>().is_err());
}

#[test]
fn parses_and_displays_emit_kinds() {
    for (source, kind) in [
        ("obj", EmitKind::Obj),
        ("ir", EmitKind::Ir),
        ("asm", EmitKind::Asm),
    ] {
        assert_eq!(source.parse(), Ok(kind));
        assert_eq!(kind.to_string(), source);
    }
    assert!("binary".parse::<EmitKind>().is_err());
}

#[test]
fn unknown_options_are_refused_by_name() {
    assert_eq!(
        "fast".parse::<OptLevel>().unwrap_err(),
        "invalid optimization level '-Ofast': expected -O0, -O1, -O2, or -O3"
    );
    assert_eq!(
        "binary".parse::<EmitKind>().unwrap_err(),
        "invalid --emit value 'binary': expected obj, ir, or asm"
    );
    assert!("".parse::<OptLevel>().is_err());
    assert!("OBJ".parse::<EmitKind>().is_err());
    assert_eq!("llvm".parse(), Ok(BackendKind::Llvm));
    assert_eq!("cranelift".parse(), Ok(BackendKind::Cranelift));
    assert_eq!(
        "gcc".parse::<BackendKind>().unwrap_err(),
        "unknown backend 'gcc' (available: cranelift, llvm)"
    );
}
