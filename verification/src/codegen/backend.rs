//! The backends and the targets they emit for.

use crate::codegen::options::OptLevel;
use crate::target::{Arch, Os, Target};
use crate::text::same_text;
use vstd::prelude::*;

verus! {

/// A code generator.
#[derive(Debug, Clone, Copy, PartialEq, Eq, Structural)]
pub enum BackendKind {
    Cranelift,
    Llvm,
}

impl Default for BackendKind {
    fn default() -> (backend: Self)
        ensures
            backend == BackendKind::Cranelift,
    {
        BackendKind::Cranelift
    }
}

impl BackendKind {
    /// Every backend, in order of preference.
    pub fn all() -> (backends: Vec<BackendKind>)
        ensures
            backends@ == seq![BackendKind::Cranelift, BackendKind::Llvm],
    {
        let mut backends: Vec<BackendKind> = Vec::new();
        backends.push(BackendKind::Cranelift);
        backends.push(BackendKind::Llvm);
        assert(backends@ =~= seq![BackendKind::Cranelift, BackendKind::Llvm]);
        backends
    }

    /// The name of this backend.
    pub open spec fn spelling(self) -> Seq<char> {
        match self {
            BackendKind::Cranelift => "cranelift"@,
            BackendKind::Llvm => "llvm"@,
        }
    }

    /// Why `name` is no backend.
    pub open spec fn refusal(name: Seq<char>) -> Seq<char> {
        "unknown backend '"@ + name + "' (available: cranelift, llvm)"@
    }

    /// The backend called `name`.
    pub fn parse(name: &str) -> (result: Result<BackendKind, String>)
        ensures
            match result {
                Ok(backend) => backend.spelling() == name@,
                Err(message) => message@ == BackendKind::refusal(name@) && forall|
                    backend: BackendKind,
                |
                    #[trigger] backend.spelling() != name@,
            },
    {
        if same_text(name, "cranelift") {
            Ok(BackendKind::Cranelift)
        } else if same_text(name, "llvm") {
            Ok(BackendKind::Llvm)
        } else {
            let mut message: String = "unknown backend '".to_owned();
            message.append(name);
            message.append("' (available: cranelift, llvm)");
            Err(message)
        }
    }

    pub fn name(self) -> (text: &'static str)
        ensures
            text@ == self.spelling(),
    {
        match self {
            BackendKind::Cranelift => "cranelift",
            BackendKind::Llvm => "llvm",
        }
    }

    pub fn to_string(&self) -> (text: String)
        ensures
            text@ == self.spelling(),
    {
        self.name().to_owned()
    }

    /// Whether this backend can emit for `target`.
    pub open spec fn emits_for(self, target: Target) -> bool {
        match self {
            BackendKind::Cranelift => target.arch is X86_64 || target.arch is Aarch64,
            BackendKind::Llvm => true,
        }
    }

    pub fn supports(self, target: Target) -> (r: bool)
        ensures
            r == self.emits_for(target),
    {
        match self {
            BackendKind::Cranelift => match target.arch {
                Arch::X86_64 | Arch::Aarch64 => true,
                _ => false,
            },
            BackendKind::Llvm => true,
        }
    }

    /// The architectures this backend advertises.
    pub open spec fn advertised(self) -> Seq<char> {
        match self {
            BackendKind::Cranelift => "x86_64, aarch64"@,
            BackendKind::Llvm => "x86_64, x86, armv7, thumbv7em, aarch64, riscv32, riscv64"@,
        }
    }

    pub fn supported_targets(self) -> (text: &'static str)
        ensures
            text@ == self.advertised(),
    {
        match self {
            BackendKind::Cranelift => "x86_64, aarch64",
            BackendKind::Llvm => "x86_64, x86, armv7, thumbv7em, aarch64, riscv32, riscv64",
        }
    }
}

impl std::str::FromStr for BackendKind {
    type Err = String;

    fn from_str(name: &str) -> (result: Result<BackendKind, String>)
        ensures
            match result {
                Ok(backend) => backend.spelling() == name@,
                Err(message) => message@ == BackendKind::refusal(name@) && forall|
                    backend: BackendKind,
                |
                    #[trigger] backend.spelling() != name@,
            },
    {
        BackendKind::parse(name)
    }
}

/// Backends that have the same name are the same, so a backend's name reads
/// back as that backend.
pub proof fn law_backend_names_differ(a: BackendKind, b: BackendKind)
    requires
        a.spelling() == b.spelling(),
    ensures
        a == b,
{
    reveal_strlit("cranelift");
    reveal_strlit("llvm");
    assert("cranelift"@[0] == 'c' && "llvm"@[0] == 'l');
}

/// The setting that asks Cranelift for an optimization level.
pub open spec fn cranelift_setting(level: OptLevel) -> Seq<char> {
    match level {
        OptLevel::O0 => "none"@,
        OptLevel::O1 => "speed"@,
        OptLevel::O2 => "speed"@,
        OptLevel::O3 => "speed_and_size"@,
    }
}

pub fn cranelift_opt_setting(level: OptLevel) -> (text: &'static str)
    ensures
        text@ == cranelift_setting(level),
{
    match level {
        OptLevel::O0 => "none",
        OptLevel::O1 | OptLevel::O2 => "speed",
        OptLevel::O3 => "speed_and_size",
    }
}

/// How hard LLVM optimizes.
#[derive(Debug, Clone, Copy, PartialEq, Eq, Structural)]
pub enum Effort {
    Nothing,
    Less,
    Standard,
    Aggressive,
}

/// The effort that an optimization level asks of LLVM.
pub open spec fn llvm_effort(level: OptLevel) -> Effort {
    match level {
        OptLevel::O0 => Effort::Nothing,
        OptLevel::O1 => Effort::Less,
        OptLevel::O2 => Effort::Standard,
        OptLevel::O3 => Effort::Aggressive,
    }
}

pub fn llvm_opt_level(level: OptLevel) -> (effort: Effort)
    ensures
        effort == llvm_effort(level),
{
    match level {
        OptLevel::O0 => Effort::Nothing,
        OptLevel::O1 => Effort::Less,
        OptLevel::O2 => Effort::Standard,
        OptLevel::O3 => Effort::Aggressive,
    }
}

/// An architecture as LLVM spells it.
pub open spec fn llvm_arch(arch: Arch) -> Seq<char> {
    match arch {
        Arch::X86_64 => "x86_64"@,
        Arch::X86 => "i686"@,
        Arch::Armv7 => "armv7"@,
        Arch::Thumbv7em => "thumbv7em"@,
        Arch::Aarch64 => "aarch64"@,
        Arch::Riscv32 => "riscv32"@,
        Arch::Riscv64 => "riscv64"@,
        Arch::Avr => "avr"@,
    }
}

/// The vendor, system and environment of a triple.
pub open spec fn llvm_system(os: Os) -> Seq<char> {
    match os {
        Os::Freestanding => "-unknown-none-elf"@,
        Os::Linux => "-unknown-linux-gnu"@,
        Os::MacOs => "-apple-macosx"@,
        Os::Windows => "-pc-windows-msvc"@,
    }
}

/// The triple LLVM is asked to emit for.
pub fn triple_for(target: Target) -> (triple: String)
    ensures
        triple@ == llvm_arch(target.arch) + llvm_system(target.os),
{
    let arch: &'static str = match target.arch {
        Arch::X86_64 => "x86_64",
        Arch::X86 => "i686",
        Arch::Armv7 => "armv7",
        Arch::Thumbv7em => "thumbv7em",
        Arch::Aarch64 => "aarch64",
        Arch::Riscv32 => "riscv32",
        Arch::Riscv64 => "riscv64",
        Arch::Avr => "avr",
    };
    let system: &'static str = match target.os {
        Os::Freestanding => "-unknown-none-elf",
        Os::Linux => "-unknown-linux-gnu",
        Os::MacOs => "-apple-macosx",
        Os::Windows => "-pc-windows-msvc",
    };
    let mut triple: String = arch.to_owned();
    triple.append(system);
    triple
}

/// The vendor of an object format.
#[derive(Debug, Clone, Copy, PartialEq, Eq, Structural)]
pub enum Vendor {
    Unknown,
    Apple,
    Pc,
}

/// The environment an object is linked into.
#[derive(Debug, Clone, Copy, PartialEq, Eq, Structural)]
pub enum Environment {
    Unknown,
    Gnu,
    Msvc,
}

/// The format of an object.
#[derive(Debug, Clone, Copy, PartialEq, Eq, Structural)]
pub enum ObjectFormat {
    Elf,
    Macho,
    Coff,
}

/// The parts of the triple Cranelift is asked to emit for.
#[derive(Debug, Clone, Copy, PartialEq, Eq, Structural)]
pub struct TripleParts {
    pub arch: Arch,
    pub vendor: Vendor,
    pub os: Os,
    pub environment: Environment,
    pub format: ObjectFormat,
}

/// The parts of the triple for `target`.
pub open spec fn parts_of(target: Target) -> TripleParts {
    TripleParts {
        arch: target.arch,
        vendor: match target.os {
            Os::Freestanding => Vendor::Unknown,
            Os::Linux => Vendor::Unknown,
            Os::MacOs => Vendor::Apple,
            Os::Windows => Vendor::Pc,
        },
        os: target.os,
        environment: match target.os {
            Os::Freestanding => Environment::Unknown,
            Os::Linux => Environment::Gnu,
            Os::MacOs => Environment::Unknown,
            Os::Windows => Environment::Msvc,
        },
        format: match target.os {
            Os::Freestanding => ObjectFormat::Elf,
            Os::Linux => ObjectFormat::Elf,
            Os::MacOs => ObjectFormat::Macho,
            Os::Windows => ObjectFormat::Coff,
        },
    }
}

pub fn triple_parts(target: Target) -> (parts: TripleParts)
    ensures
        parts == parts_of(target),
{
    let (vendor, environment, format) = match target.os {
        Os::Freestanding => (Vendor::Unknown, Environment::Unknown, ObjectFormat::Elf),
        Os::Linux => (Vendor::Unknown, Environment::Gnu, ObjectFormat::Elf),
        Os::MacOs => (Vendor::Apple, Environment::Unknown, ObjectFormat::Macho),
        Os::Windows => (Vendor::Pc, Environment::Msvc, ObjectFormat::Coff),
    };
    TripleParts { arch: target.arch, vendor, os: target.os, environment, format }
}

} // verus!
