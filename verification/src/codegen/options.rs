//! What a caller may ask of code generation.

use crate::text::same_text;
use vstd::prelude::*;

verus! {

/// How hard the backend optimizes.
#[derive(Debug, Clone, Copy, PartialEq, Eq, Structural)]
pub enum OptLevel {
    O0,
    O1,
    O2,
    O3,
}

impl Default for OptLevel {
    fn default() -> (level: Self)
        ensures
            level == OptLevel::O0,
    {
        OptLevel::O0
    }
}

impl OptLevel {
    /// How this level is written.
    pub open spec fn spelling(self) -> Seq<char> {
        match self {
            OptLevel::O0 => "0"@,
            OptLevel::O1 => "1"@,
            OptLevel::O2 => "2"@,
            OptLevel::O3 => "3"@,
        }
    }

    /// Why `text` is no level.
    pub open spec fn refusal(text: Seq<char>) -> Seq<char> {
        "invalid optimization level '-O"@ + text + "': expected -O0, -O1, -O2, or -O3"@
    }

    pub fn to_string(&self) -> (text: String)
        ensures
            text@ == self.spelling(),
    {
        match self {
            OptLevel::O0 => "0".to_owned(),
            OptLevel::O1 => "1".to_owned(),
            OptLevel::O2 => "2".to_owned(),
            OptLevel::O3 => "3".to_owned(),
        }
    }

    /// The level that `value` spells.
    pub fn parse(value: &str) -> (result: Result<OptLevel, String>)
        ensures
            match result {
                Ok(level) => level.spelling() == value@,
                Err(message) => message@ == OptLevel::refusal(value@) && forall|level: OptLevel|
                    #[trigger] level.spelling() != value@,
            },
    {
        if same_text(value, "0") {
            Ok(OptLevel::O0)
        } else if same_text(value, "1") {
            Ok(OptLevel::O1)
        } else if same_text(value, "2") {
            Ok(OptLevel::O2)
        } else if same_text(value, "3") {
            Ok(OptLevel::O3)
        } else {
            let mut message: String = "invalid optimization level '-O".to_owned();
            message.append(value);
            message.append("': expected -O0, -O1, -O2, or -O3");
            Err(message)
        }
    }
}

impl std::str::FromStr for OptLevel {
    type Err = String;

    fn from_str(value: &str) -> (result: Result<OptLevel, String>)
        ensures
            match result {
                Ok(level) => level.spelling() == value@,
                Err(message) => message@ == OptLevel::refusal(value@) && forall|level: OptLevel|
                    #[trigger] level.spelling() != value@,
            },
    {
        OptLevel::parse(value)
    }
}

/// Levels that are spelled the same are the same, so what a level is written
/// as reads back as that level.
pub proof fn law_level_spellings_differ(a: OptLevel, b: OptLevel)
    requires
        a.spelling() == b.spelling(),
    ensures
        a == b,
{
    reveal_strlit("0");
    reveal_strlit("1");
    reveal_strlit("2");
    reveal_strlit("3");
    assert("0"@[0] == '0' && "1"@[0] == '1' && "2"@[0] == '2' && "3"@[0] == '3');
}

/// What the backend emits.
#[derive(Debug, Clone, Copy, PartialEq, Eq, Structural)]
pub enum EmitKind {
    Obj,
    Ir,
    Asm,
}

impl Default for EmitKind {
    fn default() -> (kind: Self)
        ensures
            kind == EmitKind::Obj,
    {
        EmitKind::Obj
    }
}

impl EmitKind {
    /// How this kind is written.
    pub open spec fn spelling(self) -> Seq<char> {
        match self {
            EmitKind::Obj => "obj"@,
            EmitKind::Ir => "ir"@,
            EmitKind::Asm => "asm"@,
        }
    }

    /// Why `text` is no kind.
    pub open spec fn refusal(text: Seq<char>) -> Seq<char> {
        "invalid --emit value '"@ + text + "': expected obj, ir, or asm"@
    }

    pub fn to_string(&self) -> (text: String)
        ensures
            text@ == self.spelling(),
    {
        match self {
            EmitKind::Obj => "obj".to_owned(),
            EmitKind::Ir => "ir".to_owned(),
            EmitKind::Asm => "asm".to_owned(),
        }
    }

    /// The kind that `value` spells.
    pub fn parse(value: &str) -> (result: Result<EmitKind, String>)
        ensures
            match result {
                Ok(kind) => kind.spelling() == value@,
                Err(message) => message@ == EmitKind::refusal(value@) && forall|kind: EmitKind|
                    #[trigger] kind.spelling() != value@,
            },
    {
        if same_text(value, "obj") {
            Ok(EmitKind::Obj)
        } else if same_text(value, "ir") {
            Ok(EmitKind::Ir)
        } else if same_text(value, "asm") {
            Ok(EmitKind::Asm)
        } else {
            let mut message: String = "invalid --emit value '".to_owned();
            message.append(value);
            message.append("': expected obj, ir, or asm");
            Err(message)
        }
    }
}

impl std::str::FromStr for EmitKind {
    type Err = String;

    fn from_str(value: &str) -> (result: Result<EmitKind, String>)
        ensures
            match result {
                Ok(kind) => kind.spelling() == value@,
                Err(message) => message@ == EmitKind::refusal(value@) && forall|kind: EmitKind|
                    #[trigger] kind.spelling() != value@,
            },
    {
        EmitKind::parse(value)
    }
}

/// Kinds that are spelled the same are the same, so what a kind is written as
/// reads back as that kind.
pub proof fn law_kind_spellings_differ(a: EmitKind, b: EmitKind)
    requires
        a.spelling() == b.spelling(),
    ensures
        a == b,
{
    reveal_strlit("obj");
    reveal_strlit("ir");
    reveal_strlit("asm");
    assert("obj"@[0] == 'o' && "ir"@[0] == 'i' && "asm"@[0] == 'a');
}

} // verus!
