//! What name resolution tells the rest of the analysis.

use crate::checked::{CheckedFunctionDef, Storage};
use crate::generics::pattern::{SpecPattern, TypePattern};
use crate::hir::{HirGenericParam, HirId};
use crate::phrases::{ident_commas, ident_commas_text, join, join_paths, path_text, paths_text};
use crate::resolved_type::{
    CallingConvention, ConstValue, FunctionNamespace, ResolvedConformance, ResolvedFunctionType,
    ResolvedGap, ResolvedMethod, ResolvedSpecType, ResolvedType,
};
use crate::syntax::{Ident, Origin, Path, Type, Visibility};
use crate::text::{decimal, decimal_text};
use std::rc::Rc;
use vstd::prelude::*;

verus! {

/// What a path names.
#[derive(Debug)]
pub enum ResolvedItem {
    Type(ResolvedType),
    Value { ty: ResolvedType, storage: Storage, decl_id: HirId, mutable: bool },
    Gap(Rc<ResolvedGap>),
}

/// What a declared `alias` names. An alias has no identity of its own, so
/// every variant is either the target's absolute path or the structural type
/// syntax the target was written as.
#[derive(Debug)]
pub enum ResolvedAlias {
    Module(Vec<Ident>),
    /// A top-level declaration, named exactly as if its own path were written
    /// at the use site. Covers types, specs, functions and overload sets, and
    /// macros alike -- the use site decides which namespace it wanted.
    Item(Vec<Ident>),
    /// A structural target, expanded before the use site applies contextual
    /// type semantics so that `spec A + B` behaves identically whether it was
    /// written literally or reached through an alias. Every path in `ty` and
    /// `generics` already carries an origin naming the alias declaration's
    /// module, so expansion needs no module threading.
    Type { generics: Vec<HirGenericParam>, ty: Type },
    /// An overload set, whose candidates are frozen to exactly those the
    /// alias declaration site could name. Candidates are identified by their
    /// own `decl_id`s: an alias re-exports the functions that already exist,
    /// so it must not invent a wrapper, a new signature, or a new identity
    /// for them -- and it must not widen the set later either, which is what
    /// re-deriving visibility at each caller would do.
    Overloads { absolute: Vec<Ident>, candidates: Vec<HirId> },
}

/// The overload candidates a written name offers one caller, together with
/// the group's own absolute path -- never an alias's path, since an alias
/// forwards its target's identity.
#[derive(Debug)]
pub struct ResolvedOverloadSet {
    pub absolute: Vec<Ident>,
    pub candidates: OverloadCandidates,
}

/// An absolute item path together with whether the eventual `resolve_item`
/// is already authorized to reach it without re-checking the accessor's own
/// visibility.
///
/// The bypass bit is a capability that was granted once, at the binding that
/// produced this path, and must survive every hop between that binding and
/// the item query: a validated declared-alias chain (whose every link was
/// gated at its own declaration site) and an `import reveal` both grant it.
/// Losing it silently turns an authorized reference back into an
/// unauthorized one.
#[derive(Debug)]
pub struct ItemAccess {
    pub absolute: Vec<Ident>,
    pub bypass_visibility: bool,
}

impl ItemAccess {
    /// A path the accessor must still be allowed to name for itself.
    pub fn gated(absolute: Vec<Ident>) -> (access: Self)
        ensures
            access == (ItemAccess { absolute, bypass_visibility: false }),
    {
        ItemAccess { absolute, bypass_visibility: false }
    }

    /// A path whose target the accessor has already been authorized to reach.
    pub fn authorized(absolute: Vec<Ident>) -> (access: Self)
        ensures
            access == (ItemAccess { absolute, bypass_visibility: true }),
    {
        ItemAccess { absolute, bypass_visibility: true }
    }

    /// `options` with this access's authorization folded in. An already-set
    /// bypass is never cleared: authorization only accumulates.
    pub fn options(&self, options: ResolveItemOptions) -> (folded: ResolveItemOptions)
        ensures
            folded == (ResolveItemOptions {
                indirect: options.indirect,
                bypass_visibility: self.bypass_visibility || options.bypass_visibility,
            }),
    {
        options.bypassing_visibility(self.bypass_visibility || options.bypasses_visibility())
    }
}

/// What an import binds its name to.
#[derive(Debug)]
pub enum ImportTarget {
    Module(Vec<Ident>),
    Item(Vec<Ident>, ResolvedItem),
    /// A name bound to a path whose item is resolved later: an ordinary
    /// (non-alias) generic template, whose arity and contents are unknown
    /// until a use site supplies arguments, or a declared alias, which never
    /// flattens into its target. The binding's own authorization travels
    /// with the path (see [`ItemAccess`]) so the deferred item query applies
    /// exactly the rights this binding established.
    ItemPath(ItemAccess),
}

/// Why a path names nothing usable.
#[derive(Debug)]
#[allow(inconsistent_fields)]
pub enum ResolveError {
    UnknownModule(Vec<Ident>),
    /// An unprefixed import's head is not a known top-level package
    /// identity (the local package or a registered dependency).
    UnknownTopLevelPackage(Ident),
    /// A `super::` chain removed more segments than the importing
    /// module's package-relative depth allows.
    SuperAboveRoot { depth: u32, importer: Vec<Ident> },
    UnknownItem { module: Vec<Ident>, item: Ident },
    NotVisible { module: Vec<Ident>, item: Ident },
    Cycle(Vec<Vec<Ident>>),
    AmbiguousModule(Vec<Ident>),
    /// A filesystem module candidate whose `.omg` file stem or directory
    /// segment is not a spelling the parser can tokenize as an identifier.
    /// `path` is the valid ancestor prefix; `invalid` is the raw offending
    /// segment (not wrapped in `Ident`, since it is by definition not one).
    InvalidModuleName { path: Vec<Ident>, invalid: String },
    LoadFailed { path: Vec<Ident>, message: String },
    RecursiveTypeWithoutIndirection { module: Vec<Ident>, item: Ident },
    ItemFailed { module: Vec<Ident>, item: Ident },
    GenericArgCountMismatch { module: Vec<Ident>, item: Ident, expected: usize, found: usize },
    SpecNotImplemented { subject: String, spec: Ident, missing: Vec<Ident> },
    SpecDependencyCycle { module: Vec<Ident>, spec: Ident },
    AmbiguousAmbientName { name: Ident, candidates: Vec<Vec<Ident>> },
    /// An `alias`'s own generic parameter list binds a name it may not:
    /// a language type spelling, or one it already bound. Alias placeholders
    /// are validated symbolically here rather than through the analyzer's
    /// generic registration, so the rule has to be restated at this site.
    InvalidAliasGenericParam {
        module: Vec<Ident>,
        declared: Ident,
        param: Ident,
        /// Predicate completing "generic parameter '<param>' ...".
        reason: &'static str,
    },
    /// An `alias` whose target is a declaration kind an alias never names.
    InvalidAliasTarget {
        module: Vec<Ident>,
        declared: Ident,
        target: Vec<Ident>,
        kind: &'static str,
        /// The target was written inside type syntax, where the legal alias
        /// namespace is narrower: only a type or spec belongs there, even
        /// though a bare alias may forward a function, macro or module.
        type_position: bool,
    },
}

impl ResolveError {
    /// The headline of this error.
    pub open spec fn message(&self) -> Seq<char> {
        match *self {
            ResolveError::UnknownModule(path) => "cannot find module '"@
                + path_text(path@)
                + "'"@,
            ResolveError::UnknownTopLevelPackage(name) => "'"@
                + name@
                + "' is not a known top-level package (unprefixed imports are top-level; use `root::`, `self::`, or `super::` for local navigation, or register a dependency with --import="@
                + name@
                + ":<path>)"@,
            ResolveError::SuperAboveRoot { depth, importer } => "'super' used "@
                + decimal(depth as nat)
                + " time(s) from '"@
                + path_text(importer@)
                + "' would cross the package root"@,
            ResolveError::UnknownItem { module, item } => "cannot find '"@
                + item@
                + "' in module '"@
                + path_text(module@)
                + "'"@,
            ResolveError::NotVisible { module, item } => "'"@
                + path_text(module@)
                + "::"@
                + item@
                + "' is not visible here"@,
            ResolveError::Cycle(path) => "cyclic resolution dependency: "@
                + paths_text(path@, " -> "@),
            ResolveError::AmbiguousModule(path) => "module '"@
                + path_text(path@)
                + "' is ambiguous (both a file and a directory claim this name)"@,
            ResolveError::InvalidModuleName { path, invalid } => if path@.len() == 0 {
                "'"@
                    + invalid@
                    + "' is not a valid Omega module name"@
            } else {
                "'"@
                    + invalid@
                    + "' under module '"@
                    + path_text(path@)
                    + "' is not a valid Omega module name"@
            },
            ResolveError::LoadFailed { path, message } => "failed to load module '"@
                + path_text(path@)
                + "': "@
                + message@,
            ResolveError::RecursiveTypeWithoutIndirection { module, item } => "recursive type '"@
                + path_text(module@)
                + "::"@
                + item@
                + "' has infinite size"@,
            ResolveError::ItemFailed { module, item } => "cannot use '"@
                + path_text(module@)
                + "::"@
                + item@
                + "' because of its own error"@,
            ResolveError::GenericArgCountMismatch { module, item, expected, found } => "'"@
                + path_text(module@)
                + "::"@
                + item@
                + "' expects "@
                + decimal(expected as nat)
                + " type argument(s), found "@
                + decimal(found as nat),
            ResolveError::SpecNotImplemented { subject, spec, missing } => "'"@
                + subject@
                + "' does not implement spec '"@
                + spec@
                + "' (missing: "@
                + ident_commas_text(missing@)
                + ")"@,
            ResolveError::SpecDependencyCycle { module, spec } => "spec '"@
                + path_text(module@)
                + "::"@
                + spec@
                + "' depends on itself"@,
            ResolveError::InvalidAliasGenericParam { module, declared, param, reason } => "generic parameter '"@
                + param@
                + "' of alias '"@
                + path_text(module@)
                + "::"@
                + declared@
                + "' "@
                + reason@,
            ResolveError::InvalidAliasTarget { module, declared, target, kind, .. } => "alias '"@
                + path_text(module@)
                + "::"@
                + declared@
                + "' cannot name "@
                + kind@
                + " '"@
                + path_text(target@)
                + "'"@,
            ResolveError::AmbiguousAmbientName { name, candidates } => "'"@
                + name@
                + "' is ambiguous: it's exposed by more than one core module ("@
                + paths_text(candidates@, ", "@)
                + ")"@,
        }
    }

    pub fn to_string(&self) -> (text: String)
        ensures
            text@ == self.message(),
    {
        match self {
            ResolveError::UnknownModule(path) => {
                let mut out: String = "cannot find module '".to_owned();
                out.append(join(path).as_str());
                out.append("'");
                out
            },
            ResolveError::UnknownTopLevelPackage(name) => {
                let mut out: String = "'".to_owned();
                out.append(name.as_ref());
                out.append("' is not a known top-level package (unprefixed imports are top-level; use `root::`, `self::`, or `super::` for local navigation, or register a dependency with --import=");
                out.append(name.as_ref());
                out.append(":<path>)");
                out
            },
            ResolveError::SuperAboveRoot { depth, importer } => {
                let mut out: String = "'super' used ".to_owned();
                out.append(decimal_text(*depth as u128).as_str());
                out.append(" time(s) from '");
                out.append(join(importer).as_str());
                out.append("' would cross the package root");
                out
            },
            ResolveError::UnknownItem { module, item } => {
                let mut out: String = "cannot find '".to_owned();
                out.append(item.as_ref());
                out.append("' in module '");
                out.append(join(module).as_str());
                out.append("'");
                out
            },
            ResolveError::NotVisible { module, item } => {
                let mut out: String = "'".to_owned();
                out.append(join(module).as_str());
                out.append("::");
                out.append(item.as_ref());
                out.append("' is not visible here");
                out
            },
            ResolveError::Cycle(path) => {
                let mut out: String = "cyclic resolution dependency: ".to_owned();
                out.append(join_paths(path, " -> ").as_str());
                out
            },
            ResolveError::AmbiguousModule(path) => {
                let mut out: String = "module '".to_owned();
                out.append(join(path).as_str());
                out.append("' is ambiguous (both a file and a directory claim this name)");
                out
            },
            ResolveError::InvalidModuleName { path, invalid } => if path.len() == 0 {
                let mut out: String = "'".to_owned();
                out.append(invalid.as_str());
                out.append("' is not a valid Omega module name");
                out
            } else {
                let mut out: String = "'".to_owned();
                out.append(invalid.as_str());
                out.append("' under module '");
                out.append(join(path).as_str());
                out.append("' is not a valid Omega module name");
                out
            },
            ResolveError::LoadFailed { path, message } => {
                let mut out: String = "failed to load module '".to_owned();
                out.append(join(path).as_str());
                out.append("': ");
                out.append(message.as_str());
                out
            },
            ResolveError::RecursiveTypeWithoutIndirection { module, item } => {
                let mut out: String = "recursive type '".to_owned();
                out.append(join(module).as_str());
                out.append("::");
                out.append(item.as_ref());
                out.append("' has infinite size");
                out
            },
            ResolveError::ItemFailed { module, item } => {
                let mut out: String = "cannot use '".to_owned();
                out.append(join(module).as_str());
                out.append("::");
                out.append(item.as_ref());
                out.append("' because of its own error");
                out
            },
            ResolveError::GenericArgCountMismatch { module, item, expected, found } => {
                let mut out: String = "'".to_owned();
                out.append(join(module).as_str());
                out.append("::");
                out.append(item.as_ref());
                out.append("' expects ");
                out.append(decimal_text(*expected as u128).as_str());
                out.append(" type argument(s), found ");
                out.append(decimal_text(*found as u128).as_str());
                out
            },
            ResolveError::SpecNotImplemented { subject, spec, missing } => {
                let mut out: String = "'".to_owned();
                out.append(subject.as_str());
                out.append("' does not implement spec '");
                out.append(spec.as_ref());
                out.append("' (missing: ");
                out.append(ident_commas(missing).as_str());
                out.append(")");
                out
            },
            ResolveError::SpecDependencyCycle { module, spec } => {
                let mut out: String = "spec '".to_owned();
                out.append(join(module).as_str());
                out.append("::");
                out.append(spec.as_ref());
                out.append("' depends on itself");
                out
            },
            ResolveError::InvalidAliasGenericParam { module, declared, param, reason } => {
                let mut out: String = "generic parameter '".to_owned();
                out.append(param.as_ref());
                out.append("' of alias '");
                out.append(join(module).as_str());
                out.append("::");
                out.append(declared.as_ref());
                out.append("' ");
                out.append(*reason);
                out
            },
            ResolveError::InvalidAliasTarget { module, declared, target, kind, .. } => {
                let mut out: String = "alias '".to_owned();
                out.append(join(module).as_str());
                out.append("::");
                out.append(declared.as_ref());
                out.append("' cannot name ");
                out.append(*kind);
                out.append(" '");
                out.append(join(target).as_str());
                out.append("'");
                out
            },
            ResolveError::AmbiguousAmbientName { name, candidates } => {
                let mut out: String = "'".to_owned();
                out.append(name.as_ref());
                out.append("' is ambiguous: it's exposed by more than one core module (");
                out.append(join_paths(candidates, ", ").as_str());
                out.append(")");
                out
            },
        }
    }
}

/// How an item may be reached.
#[derive(Debug, Clone, Copy, PartialEq, Eq, Structural)]
pub struct ResolveItemOptions {
    pub indirect: bool,
    pub bypass_visibility: bool,
}

impl ResolveItemOptions {
    /// Reached by value, with the accessor's own rights.
    pub fn direct() -> (options: Self)
        ensures
            options == (ResolveItemOptions { indirect: false, bypass_visibility: false }),
    {
        ResolveItemOptions { indirect: false, bypass_visibility: false }
    }

    /// Reached behind a pointer, with the accessor's own rights.
    pub fn indirect() -> (options: Self)
        ensures
            options == (ResolveItemOptions { indirect: true, bypass_visibility: false }),
    {
        ResolveItemOptions { indirect: true, bypass_visibility: false }
    }

    pub fn with_indirection(indirect: bool) -> (options: Self)
        ensures
            options == (ResolveItemOptions { indirect, bypass_visibility: false }),
    {
        ResolveItemOptions { indirect, bypass_visibility: false }
    }

    pub fn through_indirection(self) -> (options: Self)
        ensures
            options == (ResolveItemOptions { indirect: true, ..self }),
    {
        ResolveItemOptions { indirect: true, bypass_visibility: self.bypass_visibility }
    }

    pub fn bypassing_visibility(self, bypass: bool) -> (options: Self)
        ensures
            options == (ResolveItemOptions { bypass_visibility: bypass, ..self }),
    {
        ResolveItemOptions { indirect: self.indirect, bypass_visibility: bypass }
    }

    pub fn allows_indirection(self) -> (r: bool)
        ensures
            r == self.indirect,
    {
        self.indirect
    }

    pub fn bypasses_visibility(self) -> (r: bool)
        ensures
            r == self.bypass_visibility,
    {
        self.bypass_visibility
    }
}

/// What the analysis asks of the modules around the one it works on.
pub trait ModuleResolver {
    fn macro_origin_module(&self, origin: Origin) -> Option<Vec<Ident>>;

    /// Resolves a `Path`'s explicit anchor (`root::`/`self::`/`super::`)
    /// relative to `origin_module`. Returns `None` when the path carries no
    /// explicit anchor, so the caller falls back to its own unanchored
    /// lookup rules instead of treating the path as navigation.
    fn resolve_explicit_anchor(&self, origin_module: &Vec<Ident>, path: &Path) -> Option<
        Result<Vec<Ident>, ResolveError>,
    >;

    /// Resolves an absolute module path through physical modules and declared
    /// module aliases. Every alias segment is checked from `accessor`; the
    /// returned path is the canonical physical module the binding denotes.
    /// `None` means the path is not a module binding, so callers may try a
    /// type/item-qualified interpretation instead.
    fn resolve_module_path(
        &mut self,
        accessor: &Vec<Ident>,
        absolute_path: &Vec<Ident>,
    ) -> Result<Option<Vec<Ident>>, ResolveError>;

    fn declared_item_visibility(&mut self, absolute_path: &Vec<Ident>) -> Option<Visibility>;

    fn resolve_import_alias(&mut self, module: &Vec<Ident>, alias: &Ident) -> Result<
        Option<ImportTarget>,
        ResolveError,
    >;

    /// The `alias` declared under `name` in `alias_module`, if there is one,
    /// where `accessor` is allowed to name the alias itself.
    ///
    /// An alias always has a visibility of its own, so whether one may be named
    /// is decided here and never by asking whether it merely exists.
    /// `bypass_visibility` says that access was granted elsewhere (see
    /// [`ItemAccess`]).
    /// Alias chains are followed and a cycle is reported rather than
    /// recursed.
    fn resolve_visible_alias(
        &mut self,
        accessor: &Vec<Ident>,
        alias_module: &Vec<Ident>,
        name: &Ident,
        bypass_visibility: bool,
    ) -> Result<Option<ResolvedAlias>, ResolveError>;

    fn ambient_core_candidates(&mut self, accessor: &Vec<Ident>, name: &Ident) -> Result<
        Option<Vec<Ident>>,
        ResolveError,
    >;

    fn import_alias_names(&mut self, module: &Vec<Ident>) -> Vec<Ident>;

    fn resolve_item(
        &mut self,
        accessor: &Vec<Ident>,
        absolute_path: &Vec<Ident>,
        type_args: &Vec<ResolvedType>,
        options: ResolveItemOptions,
    ) -> Result<ResolvedItem, ResolveError>;

    fn is_item_visible(&mut self, accessor: &Vec<Ident>, absolute_path: &Vec<Ident>) -> bool;

    fn generic_function_signature(&mut self, absolute_path: &Vec<Ident>) -> Result<
        Option<GenericSignature>,
        ResolveError,
    >;

    fn generic_literal_signature(
        &mut self,
        absolute_path: &Vec<Ident>,
        variant: Option<&Ident>,
    ) -> Result<Option<GenericLiteralSignature>, ResolveError>;

    /// The one function `owner_absolute` declares under `function_name` in
    /// `namespace`, when the owner is generic. A member's signature includes
    /// its receiver as parameter 0, with `Self` already rewritten to the
    /// owner applied to its own generics, so ordinary argument inference can
    /// solve the owner's type arguments from the explicit receiver.
    fn generic_owner_function_signature(
        &mut self,
        owner_absolute: &Vec<Ident>,
        function_name: &Ident,
        namespace: FunctionNamespace,
    ) -> Result<Option<GenericOwnerFunctionSignature>, ResolveError>;

    /// The overload candidates `accessor` may choose between when it writes
    /// the name bound by `access`. `Ok(None)` means the name is not an
    /// overload set at all.
    ///
    /// A declared overload alias is gated once, here, and then forwards the
    /// candidate set frozen at its own declaration site unchanged. A direct
    /// (non-alias) name is filtered against `accessor`, since nothing gated
    /// it earlier. Either way the caller receives an already-authorized set
    /// and never re-filters it.
    fn resolve_overload_set(&mut self, accessor: &Vec<Ident>, access: &ItemAccess) -> Result<
        Option<ResolvedOverloadSet>,
        ResolveError,
    >;

    fn fresh_synthetic_id(&mut self) -> HirId;

    fn similar_item_name(
        &mut self,
        module: &Vec<Ident>,
        target: &Ident,
        namespace: ItemNamespace,
    ) -> Option<Ident>;

    fn spec_declaration(&mut self, absolute_path: &Vec<Ident>) -> Result<
        Option<Rc<ResolvedSpecType>>,
        ResolveError,
    >;

    fn primitive_methods(&mut self, receiver: &ResolvedType) -> Result<
        Vec<(Ident, ResolvedMethod)>,
        ResolveError,
    >;

    fn conformance_for(
        &mut self,
        target: &ResolvedType,
        spec: &Rc<ResolvedSpecType>,
        spec_args: &Vec<ResolvedType>,
    ) -> Result<Option<ResolvedConformance>, ResolveError>;

    fn conformances_for_type(&mut self, target: &ResolvedType) -> Result<
        Vec<ResolvedConformance>,
        ResolveError,
    >;

    fn conformances_for_specs(&mut self, target: &ResolvedType, spec_ids: &Vec<HirId>) -> Result<
        Vec<ResolvedConformance>,
        ResolveError,
    >;

    fn resolve_function_body(&mut self, decl_id: HirId) -> Result<
        Option<CheckedFunctionDef>,
        ResolveError,
    >;

    fn resolve_comp_value(&mut self, decl_id: HirId) -> Option<ConstValue>;
}

/// Which names a lookup considers.
#[derive(Debug, Clone, Copy, PartialEq, Eq, Structural)]
pub enum ItemNamespace {
    Value,
    Type,
}

/// One function an overloaded name may mean.
#[derive(Debug)]
pub struct OverloadCandidate {
    pub decl_id: HirId,
    pub fn_type: Rc<ResolvedFunctionType>,
    pub visibility: Visibility,
}

pub type OverloadCandidates = Vec<OverloadCandidate>;

/// The shape of one overload candidate, with its own generic parameters still
/// unsubstituted.
#[derive(Debug)]
pub struct OverloadTemplate {
    pub generics: Vec<HirGenericParam>,
    /// The declared value type of each `comp` parameter, by parameter.
    pub comp_types: Vec<Option<TypePattern>>,
    /// Each declared bound with the index of the parameter it constrains.
    pub bounds: Vec<(usize, SpecPattern)>,
    pub params: Vec<TypePattern>,
    pub return_type: TypePattern,
    pub is_variadic: bool,
    pub calling_convention: CallingConvention,
}

/// The written signature of a generic function.
#[derive(Debug)]
pub struct GenericSignature {
    pub generics: Vec<Ident>,
    pub defaults: Vec<Option<Type>>,
    pub params: Vec<Type>,
    pub return_type: Type,
}

/// The written fields of a generic type or variant.
#[derive(Debug)]
pub struct GenericLiteralSignature {
    pub generics: Vec<Ident>,
    pub defaults: Vec<Option<Type>>,
    pub fields: Vec<(Ident, Type)>,
}

/// The written signature of a function a generic type owns.
#[derive(Debug)]
pub struct GenericOwnerFunctionSignature {
    pub owner_generics: Vec<Ident>,
    pub owner_defaults: Vec<Option<Type>>,
    pub function_generics: Vec<Ident>,
    pub params: Vec<Type>,
    pub return_type: Type,
}

} // verus!
