//! The parsed program that the formatter walks: a closed set of node kinds,
//! each with its span in the source text (offsets counted in characters).
use vstd::prelude::*;

verus! {

/// A span of the source text, from `start` up to `end`.
#[derive(Clone, Copy, Debug, PartialEq, Eq, Structural)]
pub struct Loc {
    pub start: usize,
    pub end: usize,
}

/// A documentation tag such as `@notice`, with its text.
pub struct DocComment {
    pub tag: String,
    pub value: String,
}

/// The kind of an aggregate type definition.
#[derive(Clone, Copy, Debug, PartialEq, Eq, Structural)]
pub enum ContractTy {
    Abstract,
    Contract,
    Interface,
    Library,
}

/// The kind of an executable unit.
#[derive(Clone, Copy, Debug, PartialEq, Eq, Structural)]
pub enum FunctionTy {
    Constructor,
    Function,
    Fallback,
    Receive,
    Modifier,
}

/// An enumeration and its values, in order.
pub struct EnumDefinition {
    pub loc: Loc,
    pub name: String,
    pub values: Vec<String>,
}

/// An executable unit: `loc` spans its signature, `body` its body if it has one.
pub struct FunctionDefinition {
    pub loc: Loc,
    pub doc: Vec<DocComment>,
    pub ty: FunctionTy,
    pub body: Option<Loc>,
}

/// A single variable declaration, without its closing `;`.
pub struct VariableDefinition {
    pub loc: Loc,
}

/// A member of an aggregate type definition.
pub enum ContractPart {
    Enum(EnumDefinition),
    Function(FunctionDefinition),
    Variable(VariableDefinition),
}

/// An aggregate type definition: its bases by their spans, then its members.
pub struct ContractDefinition {
    pub loc: Loc,
    pub doc: Vec<DocComment>,
    pub ty: ContractTy,
    pub name: String,
    pub base: Vec<Loc>,
    pub parts: Vec<ContractPart>,
}

/// One entry of an import list: a name and the alias it is imported under.
pub struct ImportRename {
    pub name: String,
    pub alias: Option<String>,
}

/// A top-level unit of a source file.
pub enum SourceUnitPart {
    Pragma { loc: Loc, name: String, value: String },
    ImportPlain { loc: Loc, path: String },
    ImportGlobal { loc: Loc, path: String, alias: String },
    ImportRenames { loc: Loc, imports: Vec<ImportRename>, from: String },
    Contract(ContractDefinition),
    Enum(EnumDefinition),
    Function(FunctionDefinition),
    Variable(VariableDefinition),
}

/// A whole source file.
pub struct SourceUnit {
    pub parts: Vec<SourceUnitPart>,
}

/// The span lies within a text of `n` characters.
pub open spec fn span_ok(loc: Loc, n: nat) -> bool {
    loc.start <= loc.end <= n
}

impl ContractPart {
    pub open spec fn spec_loc(&self) -> Loc {
        match self {
            ContractPart::Enum(e) => e.loc,
            ContractPart::Function(f) => f.loc,
            ContractPart::Variable(v) => v.loc,
        }
    }

    /// The span of the member.
    pub fn loc(&self) -> (r: Loc)
        ensures
            r == self.spec_loc(),
    {
        match self {
            ContractPart::Enum(e) => e.loc,
            ContractPart::Function(f) => f.loc,
            ContractPart::Variable(v) => v.loc,
        }
    }
}

impl FunctionDefinition {
    pub open spec fn wf(&self, n: nat) -> bool {
        &&& span_ok(self.loc, n)
        &&& match self.body {
            Some(b) => span_ok(b, n),
            None => true,
        }
    }
}

impl ContractPart {
    pub open spec fn wf(&self, n: nat) -> bool {
        match self {
            ContractPart::Enum(_) => true,
            ContractPart::Function(f) => f.wf(n),
            ContractPart::Variable(v) => span_ok(v.loc, n),
        }
    }
}

impl ContractDefinition {
    pub open spec fn wf(&self, n: nat) -> bool {
        &&& forall|i: int| 0 <= i < self.base@.len() ==> span_ok(#[trigger] self.base@[i], n)
        &&& forall|i: int| 0 <= i < self.parts@.len() ==> (#[trigger] self.parts@[i]).wf(n)
        &&& forall|i: int| 0 <= i < self.parts@.len() ==> span_ok((#[trigger] self.parts@[i]).spec_loc(), n)
    }
}

impl SourceUnitPart {
    pub open spec fn wf(&self, n: nat) -> bool {
        match self {
            SourceUnitPart::Contract(c) => c.wf(n),
            SourceUnitPart::Function(f) => f.wf(n),
            SourceUnitPart::Variable(v) => span_ok(v.loc, n),
            _ => true,
        }
    }

    pub open spec fn is_import(&self) -> bool {
        match self {
            SourceUnitPart::ImportPlain { .. } => true,
            SourceUnitPart::ImportGlobal { .. } => true,
            SourceUnitPart::ImportRenames { .. } => true,
            _ => false,
        }
    }

    pub open spec fn is_pragma(&self) -> bool {
        self is Pragma
    }

    /// A declaration: neither a pragma nor an import.
    pub open spec fn is_declaration(&self) -> bool {
        !self.is_pragma() && !self.is_import()
    }

    /// Whether the unit is an import directive of any shape.
    pub fn is_import_directive(&self) -> (r: bool)
        ensures
            r == self.is_import(),
    {
        match self {
            SourceUnitPart::ImportPlain { .. } => true,
            SourceUnitPart::ImportGlobal { .. } => true,
            SourceUnitPart::ImportRenames { .. } => true,
            _ => false,
        }
    }

    /// Whether the unit is a declaration rather than a directive.
    pub fn is_declaration_unit(&self) -> (r: bool)
        ensures
            r == self.is_declaration(),
    {
        match self {
            SourceUnitPart::Pragma { .. } => false,
            SourceUnitPart::ImportPlain { .. } => false,
            SourceUnitPart::ImportGlobal { .. } => false,
            SourceUnitPart::ImportRenames { .. } => false,
            _ => true,
        }
    }
}

impl SourceUnit {
    pub open spec fn wf(&self, n: nat) -> bool {
        forall|i: int| 0 <= i < self.parts@.len() ==> (#[trigger] self.parts@[i]).wf(n)
    }
}

impl ContractTy {
    pub open spec fn spec_text(self) -> Seq<char> {
        match self {
            ContractTy::Abstract => "abstract contract"@,
            ContractTy::Contract => "contract"@,
            ContractTy::Interface => "interface"@,
            ContractTy::Library => "library"@,
        }
    }

    /// The keyword that introduces a definition of this kind.
    pub fn text(&self) -> (r: &'static str)
        ensures
            r@ == self.spec_text(),
    {
        match self {
            ContractTy::Abstract => "abstract contract",
            ContractTy::Contract => "contract",
            ContractTy::Interface => "interface",
            ContractTy::Library => "library",
        }
    }
}

/// Whether the span lies within a text of `n` characters.
pub fn span_within(loc: Loc, n: usize) -> (r: bool)
    ensures
        r == span_ok(loc, n as nat),
{
    loc.start <= loc.end && loc.end <= n
}

impl FunctionDefinition {
    /// Whether every span of the definition lies within a text of `n` characters.
    pub fn spans_within(&self, n: usize) -> (r: bool)
        ensures
            r == self.wf(n as nat),
    {
        span_within(self.loc, n) && match self.body {
            Some(b) => span_within(b, n),
            None => true,
        }
    }
}

impl ContractPart {
    /// Whether every span of the member lies within a text of `n` characters.
    pub fn spans_within(&self, n: usize) -> (r: bool)
        ensures
            r == (self.wf(n as nat) && span_ok(self.spec_loc(), n as nat)),
    {
        span_within(self.loc(), n) && match self {
            ContractPart::Enum(_) => true,
            ContractPart::Function(f) => f.spans_within(n),
            ContractPart::Variable(v) => span_within(v.loc, n),
        }
    }
}

impl ContractDefinition {
    /// Whether every span of the definition lies within a text of `n` characters.
    pub fn spans_within(&self, n: usize) -> (r: bool)
        ensures
            r == self.wf(n as nat),
    {
        let mut i: usize = 0;
        while i < self.base.len()
            invariant
                i <= self.base@.len(),
                forall|k: int| 0 <= k < i ==> span_ok(#[trigger] self.base@[k], n as nat),
            decreases self.base.len() - i,
        {
            if !span_within(self.base[i], n) {
                return false;
            }
            i = i + 1;
        }
        let mut j: usize = 0;
        while j < self.parts.len()
            invariant
                j <= self.parts@.len(),
                forall|k: int| 0 <= k < self.base@.len() ==> span_ok(#[trigger] self.base@[k], n as nat),
                forall|k: int| 0 <= k < j ==> (#[trigger] self.parts@[k]).wf(n as nat),
                forall|k: int| 0 <= k < j ==> span_ok((#[trigger] self.parts@[k]).spec_loc(), n as nat),
            decreases self.parts.len() - j,
        {
            if !self.parts[j].spans_within(n) {
                return false;
            }
            j = j + 1;
        }
        true
    }
}

impl SourceUnitPart {
    /// Whether every span of the unit lies within a text of `n` characters.
    pub fn spans_within(&self, n: usize) -> (r: bool)
        ensures
            r == self.wf(n as nat),
    {
        match self {
            SourceUnitPart::Contract(c) => c.spans_within(n),
            SourceUnitPart::Function(f) => f.spans_within(n),
            SourceUnitPart::Variable(v) => span_within(v.loc, n),
            _ => true,
        }
    }
}

impl SourceUnit {
    /// Whether every span of the file lies within a text of `n` characters.
    pub fn spans_within(&self, n: usize) -> (r: bool)
        ensures
            r == self.wf(n as nat),
    {
        let mut i: usize = 0;
        while i < self.parts.len()
            invariant
                i <= self.parts@.len(),
                forall|k: int| 0 <= k < i ==> (#[trigger] self.parts@[k]).wf(n as nat),
            decreases self.parts.len() - i,
        {
            if !self.parts[i].spans_within(n) {
                return false;
            }
            i = i + 1;
        }
        true
    }
}

} // verus!
