//! The machines a compilation can be aimed at.

use crate::text::{chars_of, join_texts, joined, same_text, views};
use vstd::prelude::*;

verus! {

/// A processor architecture.
#[derive(Debug, Clone, Copy, PartialEq, Eq, Structural)]
pub enum Arch {
    X86_64,
    X86,
    Armv7,
    Thumbv7em,
    Aarch64,
    Riscv32,
    Riscv64,
    Avr,
}

/// An operating system, or none for freestanding use.
#[derive(Debug, Clone, Copy, PartialEq, Eq, Structural)]
pub enum Os {
    Freestanding,
    Linux,
    MacOs,
    Windows,
}

/// An architecture together with the operating system that runs on it.
#[derive(Debug, Clone, Copy, PartialEq, Eq, Structural)]
pub struct Target {
    pub arch: Arch,
    pub os: Os,
}

/// Why a written target was refused.
#[derive(Debug)]
pub enum TargetParseError {
    Malformed(String),
    UnknownArch(String),
    UnknownOs(String),
    UnsupportedPair { arch: Arch, os: Os },
}

/// What a written target denotes.
pub enum TargetMeaning {
    Target(Target),
    Malformed(Seq<char>),
    UnknownArch(Seq<char>),
    UnknownOs(Seq<char>),
    UnsupportedPair(Arch, Os),
}

impl Arch {
    /// The operating systems that run on this architecture.
    pub open spec fn oses(self) -> Seq<Os> {
        match self {
            Arch::X86_64 | Arch::Aarch64 => seq![Os::Freestanding, Os::Linux, Os::MacOs, Os::Windows],
            Arch::X86 => seq![Os::Freestanding, Os::Linux, Os::Windows],
            Arch::Armv7 | Arch::Riscv32 | Arch::Riscv64 => seq![Os::Freestanding, Os::Linux],
            Arch::Thumbv7em | Arch::Avr => seq![Os::Freestanding],
        }
    }

    /// The operating systems this architecture is actually built for. Every
    /// architecture supports freestanding use; a hosted OS is listed only
    /// where that OS really runs on the architecture.
    pub fn supported_oses(self) -> (list: Vec<Os>)
        ensures
            list@ == self.oses(),
    {
        match self {
            Arch::X86_64 | Arch::Aarch64 => vec![Os::Freestanding, Os::Linux, Os::MacOs, Os::Windows],
            Arch::X86 => vec![Os::Freestanding, Os::Linux, Os::Windows],
            Arch::Armv7 | Arch::Riscv32 | Arch::Riscv64 => vec![Os::Freestanding, Os::Linux],
            Arch::Thumbv7em | Arch::Avr => vec![Os::Freestanding],
        }
    }

    /// The canonical spelling of this architecture.
    pub open spec fn spelling(self) -> Seq<char> {
        match self {
            Arch::X86_64 => "x86_64"@,
            Arch::X86 => "x86"@,
            Arch::Armv7 => "armv7"@,
            Arch::Thumbv7em => "thumbv7em"@,
            Arch::Aarch64 => "aarch64"@,
            Arch::Riscv32 => "riscv32"@,
            Arch::Riscv64 => "riscv64"@,
            Arch::Avr => "avr"@,
        }
    }

    pub fn name(self) -> (text: &'static str)
        ensures
            text@ == self.spelling(),
    {
        match self {
            Arch::X86_64 => "x86_64",
            Arch::X86 => "x86",
            Arch::Armv7 => "armv7",
            Arch::Thumbv7em => "thumbv7em",
            Arch::Aarch64 => "aarch64",
            Arch::Riscv32 => "riscv32",
            Arch::Riscv64 => "riscv64",
            Arch::Avr => "avr",
        }
    }

    /// The architecture a segment of a target spells, aliases included.
    pub open spec fn spelled(name: Seq<char>) -> Option<Arch> {
        if name == "x86_64"@ {
            Some(Arch::X86_64)
        } else if name == "x86"@ || name == "i386"@ || name == "i686"@ {
            Some(Arch::X86)
        } else if name == "armv7"@ || name == "arm"@ {
            Some(Arch::Armv7)
        } else if name == "thumbv7em"@ || name == "thumbv7"@ {
            Some(Arch::Thumbv7em)
        } else if name == "aarch64"@ {
            Some(Arch::Aarch64)
        } else if name == "riscv32"@ {
            Some(Arch::Riscv32)
        } else if name == "riscv64"@ {
            Some(Arch::Riscv64)
        } else if name == "avr"@ {
            Some(Arch::Avr)
        } else {
            None
        }
    }

    fn from_spelling(name: &str) -> (arch: Option<Arch>)
        ensures
            arch == Arch::spelled(name@),
    {
        if same_text(name, "x86_64") {
            Some(Arch::X86_64)
        } else if same_text(name, "x86") || same_text(name, "i386") || same_text(name, "i686") {
            Some(Arch::X86)
        } else if same_text(name, "armv7") || same_text(name, "arm") {
            Some(Arch::Armv7)
        } else if same_text(name, "thumbv7em") || same_text(name, "thumbv7") {
            Some(Arch::Thumbv7em)
        } else if same_text(name, "aarch64") {
            Some(Arch::Aarch64)
        } else if same_text(name, "riscv32") {
            Some(Arch::Riscv32)
        } else if same_text(name, "riscv64") {
            Some(Arch::Riscv64)
        } else if same_text(name, "avr") {
            Some(Arch::Avr)
        } else {
            None
        }
    }

    fn runs(self, os: Os) -> (r: bool)
        ensures
            r == self.oses().contains(os),
    {
        let list: Vec<Os> = self.supported_oses();
        let mut i: usize = 0;
        while i < list.len()
            invariant
                i <= list@.len(),
                list@ == self.oses(),
                forall|k: int| 0 <= k < i ==> list@[k] != os,
            decreases list.len() - i,
        {
            if list[i] == os {
                return true;
            }
            i = i + 1;
        }
        false
    }
}

impl Os {
    /// The canonical spelling of this operating system.
    pub open spec fn spelling(self) -> Seq<char> {
        match self {
            Os::Freestanding => "none"@,
            Os::Linux => "linux"@,
            Os::MacOs => "macos"@,
            Os::Windows => "windows"@,
        }
    }

    pub fn name(self) -> (text: &'static str)
        ensures
            text@ == self.spelling(),
    {
        match self {
            Os::Freestanding => "none",
            Os::Linux => "linux",
            Os::MacOs => "macos",
            Os::Windows => "windows",
        }
    }

    /// The operating system a segment of a target spells, aliases included.
    pub open spec fn spelled(name: Seq<char>) -> Option<Os> {
        if name == "none"@ || name == "freestanding"@ {
            Some(Os::Freestanding)
        } else if name == "linux"@ {
            Some(Os::Linux)
        } else if name == "macos"@ || name == "darwin"@ {
            Some(Os::MacOs)
        } else if name == "windows"@ {
            Some(Os::Windows)
        } else {
            None
        }
    }

    fn from_spelling(name: &str) -> (os: Option<Os>)
        ensures
            os == Os::spelled(name@),
    {
        if same_text(name, "none") || same_text(name, "freestanding") {
            Some(Os::Freestanding)
        } else if same_text(name, "linux") {
            Some(Os::Linux)
        } else if same_text(name, "macos") || same_text(name, "darwin") {
            Some(Os::MacOs)
        } else if same_text(name, "windows") {
            Some(Os::Windows)
        } else {
            None
        }
    }
}

/// The pieces of `text` between the dashes in it.
pub open spec fn dash_segments(text: Seq<char>) -> Seq<Seq<char>>
    decreases text.len(),
{
    if text.len() == 0 {
        seq![Seq::empty()]
    } else {
        let before = dash_segments(text.drop_last());
        if text.last() == '-' {
            before.push(Seq::empty())
        } else {
            before.drop_last().push(before.last().push(text.last()))
        }
    }
}

/// What `arch` and `os` denote together.
pub open spec fn pair_meaning(arch: Seq<char>, os: Seq<char>) -> TargetMeaning {
    match Arch::spelled(arch) {
        None => TargetMeaning::UnknownArch(arch),
        Some(known_arch) => match Os::spelled(os) {
            None => TargetMeaning::UnknownOs(os),
            Some(known_os) => if known_arch.oses().contains(known_os) {
                TargetMeaning::Target(Target { arch: known_arch, os: known_os })
            } else {
                TargetMeaning::UnsupportedPair(known_arch, known_os)
            },
        },
    }
}

/// What a written target denotes: `<arch>-<os>` or `<arch>-<vendor>-<os>`.
pub open spec fn target_meaning(text: Seq<char>) -> TargetMeaning {
    let segments = dash_segments(text);
    if segments.len() == 2 {
        pair_meaning(segments[0], segments[1])
    } else if segments.len() == 3 {
        pair_meaning(segments[0], segments[2])
    } else {
        TargetMeaning::Malformed(text)
    }
}

/// The meaning that a result of parsing reports.
pub open spec fn reported(result: Result<Target, TargetParseError>) -> TargetMeaning {
    match result {
        Ok(target) => TargetMeaning::Target(target),
        Err(TargetParseError::Malformed(text)) => TargetMeaning::Malformed(text@),
        Err(TargetParseError::UnknownArch(name)) => TargetMeaning::UnknownArch(name@),
        Err(TargetParseError::UnknownOs(name)) => TargetMeaning::UnknownOs(name@),
        Err(TargetParseError::UnsupportedPair { arch, os }) => TargetMeaning::UnsupportedPair(
            arch,
            os,
        ),
    }
}

fn split_dashes(text: &str) -> (segments: Vec<String>)
    ensures
        views(segments@) == dash_segments(text@),
{
    let chars: Vec<char> = chars_of(text);
    let mut segments: Vec<String> = Vec::new();
    let mut current: String = String::new();
    let mut i: usize = 0;
    while i < chars.len()
        invariant
            i <= chars@.len(),
            chars@ == text@,
            views(segments@).push(current@) =~= dash_segments(text@.take(i as int)),
        decreases chars.len() - i,
    {
        proof {
            let next = text@.take(i as int + 1);
            assert(next.drop_last() =~= text@.take(i as int));
            assert(next.last() == text@[i as int]);
        }
        if chars[i] == '-' {
            let ghost before = segments@;
            segments.push(current);
            current = String::new();
            assert(views(segments@) =~= views(before).push(segments@.last()@));
        } else {
            current.push(chars[i]);
        }
        i = i + 1;
    }
    let ghost before = segments@;
    segments.push(current);
    assert(views(segments@) =~= views(before).push(current@));
    assert(text@.take(i as int) =~= text@);
    segments
}

impl Target {
    /// The target a compilation is aimed at unless another is named.
    pub open spec fn standard() -> Target {
        Target { arch: Arch::X86_64, os: Os::Linux }
    }

    /// Bytes of a pointer on this target.
    pub open spec fn pointer_width(self) -> u32 {
        match self.arch {
            Arch::X86_64 | Arch::Aarch64 | Arch::Riscv64 => 8,
            Arch::X86 | Arch::Armv7 | Arch::Thumbv7em | Arch::Riscv32 => 4,
            Arch::Avr => 2,
        }
    }

    pub fn pointer_bytes(self) -> (bytes: u32)
        ensures
            bytes == self.pointer_width(),
    {
        match self.arch {
            Arch::X86_64 | Arch::Aarch64 | Arch::Riscv64 => 8,
            Arch::X86 | Arch::Armv7 | Arch::Thumbv7em | Arch::Riscv32 => 4,
            Arch::Avr => 2,
        }
    }

    pub fn pointer_bits(self) -> (bits: u32)
        ensures
            bits == self.pointer_width() * 8,
    {
        self.pointer_bytes() * 8
    }

    /// Reads a written target.
    pub fn parse(s: &str) -> (result: Result<Target, TargetParseError>)
        ensures
            reported(result) == target_meaning(s@),
    {
        let segments: Vec<String> = split_dashes(s);
        proof {
            assert(views(segments@).len() == segments@.len());
            assert forall|k: int| 0 <= k < segments@.len() implies #[trigger] segments@[k]@
                == dash_segments(s@)[k] by {
                assert(views(segments@)[k] == segments@[k]@);
            }
        }
        let os_index: usize = if segments.len() == 2 {
            1
        } else if segments.len() == 3 {
            2
        } else {
            return Err(TargetParseError::Malformed(s.to_owned()));
        };
        let arch_name: &str = segments[0].as_str();
        let os_name: &str = segments[os_index].as_str();
        let arch: Arch = match Arch::from_spelling(arch_name) {
            Some(arch) => arch,
            None => {
                return Err(TargetParseError::UnknownArch(arch_name.to_owned()));
            },
        };
        let os: Os = match Os::from_spelling(os_name) {
            Some(os) => os,
            None => {
                return Err(TargetParseError::UnknownOs(os_name.to_owned()));
            },
        };
        if !arch.runs(os) {
            return Err(TargetParseError::UnsupportedPair { arch, os });
        }
        Ok(Target { arch, os })
    }

    /// This target's canonical spelling.
    pub open spec fn spelling(self) -> Seq<char> {
        self.arch.spelling() + "-unknown-"@ + self.os.spelling()
    }

    pub fn to_string(&self) -> (text: String)
        ensures
            text@ == self.spelling(),
    {
        let mut text: String = self.arch.name().to_owned();
        text.append("-unknown-");
        text.append(self.os.name());
        text
    }
}

impl Default for Target {
    fn default() -> (target: Self)
        ensures
            target == Target::standard(),
    {
        Target { arch: Arch::X86_64, os: Os::Linux }
    }
}

/// The operating systems of an architecture, each in backquotes.
pub open spec fn quoted_oses(oses: Seq<Os>) -> Seq<Seq<char>> {
    oses.map_values(|os: Os| "`"@ + os.spelling() + "`"@)
}

impl TargetParseError {
    /// The text a refused target is reported with.
    pub open spec fn message(&self) -> Seq<char> {
        match *self {
            TargetParseError::Malformed(s) => "'"@ + s@
                + "' is not a valid target triplet (expected `<arch>-<os>`, e.g. `x86_64-linux`)"@,
            TargetParseError::UnknownArch(a) => "unknown target architecture '"@ + a@
                + "' (expected `x86_64`, `x86`, `armv7`, `thumbv7em`, `aarch64`, `riscv32`, `riscv64`, or `avr`)"@,
            TargetParseError::UnknownOs(o) => "unknown target OS '"@ + o@
                + "' (expected `none`/`freestanding`, `linux`, `macos`, or `windows`)"@,
            TargetParseError::UnsupportedPair { arch, os } => "there is no '"@ + os.spelling()
                + "' target for '"@ + arch.spelling() + "' (`"@ + arch.spelling() + "` supports "@
                + joined(quoted_oses(arch.oses()), ", "@) + ")"@,
        }
    }

    pub fn to_string(&self) -> (text: String)
        ensures
            text@ == self.message(),
    {
        match self {
            TargetParseError::Malformed(s) => {
                let mut text: String = "'".to_owned();
                text.append(s.as_str());
                text.append(
                    "' is not a valid target triplet (expected `<arch>-<os>`, e.g. `x86_64-linux`)",
                );
                text
            },
            TargetParseError::UnknownArch(a) => {
                let mut text: String = "unknown target architecture '".to_owned();
                text.append(a.as_str());
                text.append(
                    "' (expected `x86_64`, `x86`, `armv7`, `thumbv7em`, `aarch64`, `riscv32`, `riscv64`, or `avr`)",
                );
                text
            },
            TargetParseError::UnknownOs(o) => {
                let mut text: String = "unknown target OS '".to_owned();
                text.append(o.as_str());
                text.append("' (expected `none`/`freestanding`, `linux`, `macos`, or `windows`)");
                text
            },
            TargetParseError::UnsupportedPair { arch, os } => {
                let list: Vec<Os> = arch.supported_oses();
                let mut quoted: Vec<String> = Vec::new();
                let mut i: usize = 0;
                while i < list.len()
                    invariant
                        i <= list@.len(),
                        views(quoted@) =~= quoted_oses(list@.take(i as int)),
                    decreases list.len() - i,
                {
                    let mut item: String = "`".to_owned();
                    item.append(list[i].name());
                    item.append("`");
                    let ghost before = quoted@;
                    quoted.push(item);
                    assert(views(quoted@) =~= views(before).push(quoted@.last()@));
                    assert(quoted_oses(list@.take(i as int + 1)) =~= quoted_oses(
                        list@.take(i as int),
                    ).push("`"@ + list@[i as int].spelling() + "`"@));
                    i = i + 1;
                }
                assert(list@.take(i as int) =~= list@);
                let mut text: String = "there is no '".to_owned();
                text.append(os.name());
                text.append("' target for '");
                text.append(arch.name());
                text.append("' (`");
                text.append(arch.name());
                text.append("` supports ");
                text.append(join_texts(&quoted, ", ").as_str());
                text.append(")");
                text
            },
        }
    }
}

proof fn lemma_segments_last(prefix: Seq<char>, word: Seq<char>)
    requires
        !word.contains('-'),
    ensures
        dash_segments(prefix + seq!['-'] + word) == dash_segments(prefix).push(word),
    decreases word.len(),
{
    let text = prefix + seq!['-'] + word;
    if word.len() == 0 {
        assert(text.drop_last() =~= prefix);
        assert(word =~= Seq::empty());
    } else {
        let shorter = word.drop_last();
        assert(!shorter.contains('-')) by {
            if shorter.contains('-') {
                let k = choose|k: int| 0 <= k < shorter.len() && shorter[k] == '-';
                assert(word[k] == '-');
            }
        }
        lemma_segments_last(prefix, shorter);
        assert(text.drop_last() =~= prefix + seq!['-'] + shorter);
        assert(text.last() == word.last());
        assert(word.contains(word.last()));
        assert(dash_segments(prefix).push(shorter).drop_last() =~= dash_segments(prefix));
        assert(shorter.push(word.last()) =~= word);
    }
}

proof fn lemma_segments_single(word: Seq<char>)
    requires
        !word.contains('-'),
    ensures
        dash_segments(word) == seq![word],
    decreases word.len(),
{
    if word.len() == 0 {
        assert(word =~= Seq::empty());
    } else {
        let shorter = word.drop_last();
        assert(!shorter.contains('-')) by {
            if shorter.contains('-') {
                let k = choose|k: int| 0 <= k < shorter.len() && shorter[k] == '-';
                assert(word[k] == '-');
            }
        }
        lemma_segments_single(shorter);
        assert(word.contains(word.last()));
        assert(shorter.push(word.last()) =~= word);
        assert(dash_segments(word) =~= seq![word]);
    }
}

proof fn lemma_arch_spelling(arch: Arch)
    ensures
        Arch::spelled(arch.spelling()) == Some(arch),
        !arch.spelling().contains('-'),
{
    reveal_strlit("x86_64");
    reveal_strlit("x86");
    reveal_strlit("i386");
    reveal_strlit("i686");
    reveal_strlit("armv7");
    reveal_strlit("arm");
    reveal_strlit("thumbv7em");
    reveal_strlit("thumbv7");
    reveal_strlit("aarch64");
    reveal_strlit("riscv32");
    reveal_strlit("riscv64");
    reveal_strlit("avr");
    assert("x86_64"@.len() == 6 && "x86"@.len() == 3 && "i386"@.len() == 4 && "i686"@.len() == 4);
    assert("armv7"@.len() == 5 && "arm"@.len() == 3 && "thumbv7em"@.len() == 9);
    assert("thumbv7"@.len() == 7 && "aarch64"@.len() == 7 && "riscv32"@.len() == 7);
    assert("riscv64"@.len() == 7 && "avr"@.len() == 3);
    assert("thumbv7"@[0] == 't' && "aarch64"@[0] == 'a' && "riscv64"@[0] == 'r');
    assert("riscv32"@[0] == 'r' && "riscv32"@[5] == '3' && "riscv64"@[5] == '6');
    assert("x86"@[0] == 'x' && "avr"@[0] == 'a' && "arm"@[1] == 'r' && "avr"@[1] == 'v');
}

proof fn lemma_os_spelling(os: Os)
    ensures
        Os::spelled(os.spelling()) == Some(os),
        !os.spelling().contains('-'),
{
    reveal_strlit("none");
    reveal_strlit("freestanding");
    reveal_strlit("linux");
    reveal_strlit("macos");
    reveal_strlit("darwin");
    reveal_strlit("windows");
    assert("none"@.len() == 4 && "freestanding"@.len() == 12 && "linux"@.len() == 5);
    assert("macos"@.len() == 5 && "darwin"@.len() == 6 && "windows"@.len() == 7);
    assert("linux"@[0] == 'l' && "macos"@[0] == 'm');
}

/// Every supported pair's canonical spelling reads back as that pair.
pub proof fn law_display_parses_back(target: Target)
    requires
        target.arch.oses().contains(target.os),
    ensures
        target_meaning(target.spelling()) == TargetMeaning::Target(target),
{
    let a = target.arch.spelling();
    let o = target.os.spelling();
    let vendor = "unknown"@;
    lemma_arch_spelling(target.arch);
    lemma_os_spelling(target.os);
    reveal_strlit("unknown");
    reveal_strlit("-unknown-");
    assert(!vendor.contains('-'));
    assert(target.spelling() =~= (a + seq!['-'] + vendor) + seq!['-'] + o);
    lemma_segments_single(a);
    lemma_segments_last(a, vendor);
    lemma_segments_last(a + seq!['-'] + vendor, o);
    assert(dash_segments(target.spelling()) =~= seq![a, vendor, o]);
}

/// Every architecture can be used without an operating system.
pub proof fn law_freestanding_everywhere(arch: Arch)
    ensures
        arch.oses().contains(Os::Freestanding),
{
    assert(arch.oses()[0] == Os::Freestanding);
}

/// The standard target is one that its architecture supports.
pub proof fn law_standard_target_is_supported()
    ensures
        Target::standard().arch.oses().contains(Target::standard().os),
{
    assert(Arch::X86_64.oses()[1] == Os::Linux);
}

} // verus!
