use omega::target::{Arch, Os, Target};

fn canonical(arch: Arch, os: Os) -> String {
    Target { arch, os }.to_string().replace("-unknown-", "-")
}

fn round_trips(s: &str, arch: Arch, os: Os) {
    let parsed = Target::parse(s).unwrap_or_else(|e| panic!("{s} should parse: {e:?}"));
    assert_eq!(parsed.arch, arch);
    assert_eq!(parsed.os, os);
    assert_eq!(
        parsed.to_string().replace("-unknown-", "-"),
        canonical(arch, os)
    );
}

#[test]
fn every_arch_and_os_parses_and_displays() {
    round_trips("x86_64-linux", Arch::X86_64, Os::Linux);
    round_trips("x86_64-macos", Arch::X86_64, Os::MacOs);
    round_trips("x86_64-windows", Arch::X86_64, Os::Windows);
    round_trips("x86-linux", Arch::X86, Os::Linux);
    round_trips("armv7-none", Arch::Armv7, Os::Freestanding);
    round_trips("thumbv7em-none", Arch::Thumbv7em, Os::Freestanding);
    round_trips("aarch64-linux", Arch::Aarch64, Os::Linux);
    round_trips("riscv32-none", Arch::Riscv32, Os::Freestanding);
    round_trips("riscv64-linux", Arch::Riscv64, Os::Linux);
    round_trips("avr-none", Arch::Avr, Os::Freestanding);
    round_trips("avr-unknown-none", Arch::Avr, Os::Freestanding);
    round_trips("riscv32-freestanding", Arch::Riscv32, Os::Freestanding);
    round_trips("x86_64-unknown-linux", Arch::X86_64, Os::Linux);
    round_trips("x86_64-unknown-none", Arch::X86_64, Os::Freestanding);
    round_trips("i386-unknown-linux", Arch::X86, Os::Linux);
    round_trips("arm-unknown-none", Arch::Armv7, Os::Freestanding);
    round_trips("thumbv7-unknown-none", Arch::Thumbv7em, Os::Freestanding);
    round_trips("x86_64-unknown-darwin", Arch::X86_64, Os::MacOs);
}

#[test]
fn pointer_widths_are_per_arch() {
    for (arch, bytes) in [
        (Arch::X86_64, 8),
        (Arch::Aarch64, 8),
        (Arch::Riscv64, 8),
        (Arch::X86, 4),
        (Arch::Armv7, 4),
        (Arch::Thumbv7em, 4),
        (Arch::Riscv32, 4),
        (Arch::Avr, 2),
    ] {
        assert_eq!(
            Target {
                arch,
                os: Os::Linux
            }
            .pointer_bytes(),
            bytes,
            "{arch:?}"
        );
        assert_eq!(
            Target {
                arch,
                os: Os::Linux
            }
            .pointer_bits(),
            bytes * 8,
            "{arch:?}"
        );
    }
}

#[test]
fn every_supported_pair_parses_and_round_trips() {
    for arch in [
        Arch::X86_64,
        Arch::X86,
        Arch::Armv7,
        Arch::Thumbv7em,
        Arch::Aarch64,
        Arch::Riscv32,
        Arch::Riscv64,
        Arch::Avr,
    ] {
        assert!(
            arch.supported_oses().contains(&Os::Freestanding),
            "{arch:?} must support freestanding use"
        );
        for os in arch.supported_oses() {
            round_trips(&format!("{}-{}", arch.name(), os.name()), arch, os);
        }
    }
}

#[test]
fn an_architecture_rejects_an_os_it_does_not_run() {
    for (spelling, arch) in [
        ("avr-linux", "avr"),
        ("avr-macos", "avr"),
        ("thumbv7em-linux", "thumbv7em"),
        ("riscv64-windows", "riscv64"),
        ("armv7-macos", "armv7"),
        ("x86-macos", "x86"),
    ] {
        let error = Target::parse(spelling)
            .expect_err(&format!("{spelling} is not a real target"))
            .to_string();
        assert!(
            error.contains(arch) && error.contains("`none`"),
            "{spelling} must be rejected with the OSes {arch} does support: {error}"
        );
    }
}

#[test]
fn the_default_target_is_a_supported_pair() {
    assert!(
        Target::default()
            .arch
            .supported_oses()
            .contains(&Target::default().os)
    );
    assert_eq!(
        Target::parse("x86_64-linux").expect("the default spelling parses"),
        Target::default()
    );
}

#[test]
fn unknown_names_list_the_supported_set() {
    let arch = Target::parse("sparc-linux").unwrap_err().to_string();
    assert!(
        arch.contains("x86_64") && arch.contains("riscv32") && arch.contains("avr"),
        "{arch}"
    );
    let os = Target::parse("x86_64-vxworks").unwrap_err().to_string();
    assert!(os.contains("none") && os.contains("windows"), "{os}");
    assert!(
        Target::parse("just")
            .unwrap_err()
            .to_string()
            .contains("not a valid target triplet")
    );
}
