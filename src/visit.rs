//! The formatting driver: one method per node kind, each stated as the writes
//! it makes on the writer's state.
use vstd::prelude::*;

use crate::outside::{normalize_version_req, version_req_text};
use crate::text::{count_newlines, count_newlines_between, join, sort_seq, sort_strings, trim_end, trim_end_str};
use crate::tree::{
    span_ok, ContractDefinition, ContractPart, DocComment, EnumDefinition, FunctionDefinition,
    FunctionTy, ImportRename, Loc, SourceUnit, SourceUnitPart, VariableDefinition,
};
use crate::writer::{
    closing_bracket, empty_brackets, opening_bracket, sat, write_separated_state, Formatter,
    WriterState,
};
use crate::config::FormatterConfig;

verus! {

/// The source text under `loc`.
pub open spec fn span_text(src: Seq<char>, loc: Loc) -> Seq<char> {
    src.subrange(loc.start as int, loc.end as int)
}

/// A documentation comment as written: `/// @<tag> <value>`.
pub open spec fn doc_text(d: DocComment) -> Seq<char> {
    "/// @"@ + d.tag@ + " "@ + d.value@
}

/// The state after writing the first `n` documentation comments, one per line.
pub open spec fn docs_state(st: WriterState, tw: nat, docs: Seq<DocComment>, n: nat) -> WriterState
    decreases n,
{
    if n == 0 {
        st
    } else {
        docs_state(st, tw, docs, (n - 1) as nat).write(tw, doc_text(docs[n - 1])).write(tw, "\n"@)
    }
}

/// The value a pragma is written with: a language-version range in its
/// canonical form where it parses, else the value as given.
pub open spec fn pragma_value(name: Seq<char>, value: Seq<char>) -> Seq<char> {
    if name == "solidity"@ {
        match version_req_text(value) {
            Some(t) => t,
            None => value,
        }
    } else {
        value
    }
}

/// One entry of an import list as written: `name` or `name as alias`.
pub open spec fn rename_text(r: ImportRename) -> Seq<char> {
    match r.alias {
        Some(a) => r.name@ + " as "@ + a@,
        None => r.name@,
    }
}

/// The entries of an import list as written, in source order.
pub open spec fn renames_text(imports: Seq<ImportRename>) -> Seq<Seq<char>> {
    imports.map_values(|r: ImportRename| rename_text(r))
}

/// The state after writing an import list whose entries, already ordered, are `items`.
/// An empty list is written as empty brackets; any other stays on one line
/// exactly when it fits in the line length.
pub open spec fn renames_state(
    st: WriterState,
    config: FormatterConfig,
    items: Seq<Seq<char>>,
    from: Seq<char>,
) -> WriterState {
    let tw = config.tab_width as nat;
    let s1 = st.write(tw, "import "@);
    let tail = " from \""@ + from + "\";"@;
    if items.len() == 0 {
        s1.write(tw, empty_brackets(config)).write(tw, tail)
    } else {
    let multiline = s1.width_with(tw, join(items, ", "@).len()) > config.line_length;
    let s2 = if multiline {
        s1.write(tw, "{\n"@).indent(1)
    } else {
        s1.write(tw, opening_bracket(config))
    };
    let s3 = write_separated_state(s2, tw, items, ", "@, multiline);
    let s4 = if multiline {
        s3.dedent(1).write(tw, "\n}"@)
    } else {
        s3.write(tw, closing_bracket(config))
    };
    s4.write(tw, tail)
    }
}

/// The state after writing the first `n` values of an enumeration, one per line,
/// each but the last followed by a comma.
pub open spec fn enum_values_state(st: WriterState, tw: nat, values: Seq<Seq<char>>, n: nat) -> WriterState
    decreases n,
{
    if n == 0 {
        st
    } else {
        let w = enum_values_state(st, tw, values, (n - 1) as nat).write(tw, values[n - 1]);
        let w2 = if n - 1 != values.len() - 1 {
            w.write(tw, ","@)
        } else {
            w
        };
        w2.write(tw, "\n"@)
    }
}

/// The state after writing an enumeration.
pub open spec fn enum_state(st: WriterState, config: FormatterConfig, e: EnumDefinition) -> WriterState {
    let tw = config.tab_width as nat;
    let s1 = st.write(tw, "enum "@ + e.name@ + " "@);
    if e.values@.len() == 0 {
        s1.write(tw, empty_brackets(config))
    } else {
        enum_values_state(
            s1.write(tw, "{\n"@).indent(1),
            tw,
            e.values.deep_view(),
            e.values@.len(),
        ).dedent(1).write(tw, "}"@)
    }
}

/// The signature of an executable unit as written: its source, with trailing
/// white space left off for a constructor.
pub open spec fn signature_text(src: Seq<char>, f: FunctionDefinition) -> Seq<char> {
    if f.ty == FunctionTy::Constructor {
        trim_end(span_text(src, f.loc))
    } else {
        span_text(src, f.loc)
    }
}

/// The state after writing an executable unit.
pub open spec fn function_state(
    st: WriterState,
    config: FormatterConfig,
    src: Seq<char>,
    f: FunctionDefinition,
) -> WriterState {
    let tw = config.tab_width as nat;
    let s1 = docs_state(st, tw, f.doc@, f.doc@.len()).write(tw, signature_text(src, f));
    match f.body {
        Some(b) => s1.write(tw, " "@).write(tw, span_text(src, b)),
        None => s1.write(tw, ";"@),
    }
}

/// The state after writing a variable declaration.
pub open spec fn var_state(st: WriterState, config: FormatterConfig, src: Seq<char>, v: VariableDefinition) -> WriterState {
    let tw = config.tab_width as nat;
    st.write(tw, span_text(src, v.loc)).write(tw, ";"@)
}

/// The state after writing a member of an aggregate type.
pub open spec fn part_state(st: WriterState, config: FormatterConfig, src: Seq<char>, p: ContractPart) -> WriterState {
    match p {
        ContractPart::Enum(e) => enum_state(st, config, e),
        ContractPart::Function(f) => function_state(st, config, src, f),
        ContractPart::Variable(v) => var_state(st, config, src, v),
    }
}

/// The number of line breaks in the source from `from` up to `to`.
pub open spec fn newlines_between(src: Seq<char>, from: int, to: int) -> nat {
    if from < to {
        count_newlines(src.subrange(from, to))
    } else {
        0
    }
}

/// Whether a blank line follows member `i`: the source holds more than one line
/// break between the character after its end and the start of the next member.
pub open spec fn blank_after(src: Seq<char>, parts: Seq<ContractPart>, i: int) -> bool {
    i + 1 < parts.len() && newlines_between(
        src,
        sat(parts[i].spec_loc().end + 1) as int,
        parts[i + 1].spec_loc().start as int,
    ) > 1
}

/// The state after writing the first `n` members of an aggregate body, each
/// followed by a line break and, where `blank_after` says so, a blank line.
pub open spec fn members_state(
    st: WriterState,
    config: FormatterConfig,
    src: Seq<char>,
    parts: Seq<ContractPart>,
    n: nat,
) -> WriterState
    decreases n,
{
    if n == 0 {
        st
    } else {
        let tw = config.tab_width as nat;
        let s = part_state(members_state(st, config, src, parts, (n - 1) as nat), config, src, parts[n - 1]).write(
            tw,
            "\n"@,
        );
        if blank_after(src, parts, n - 1) {
            s.write(tw, "\n"@)
        } else {
            s
        }
    }
}

/// The source text of each base.
pub open spec fn bases_text(src: Seq<char>, bases: Seq<Loc>) -> Seq<Seq<char>> {
    bases.map_values(|l: Loc| span_text(src, l))
}

/// The state after capturing the first `n` of `texts` one after another.
pub open spec fn captures_state(st: WriterState, texts: Seq<Seq<char>>, n: nat) -> WriterState
    decreases n,
{
    if n == 0 {
        st
    } else {
        captures_state(st, texts, (n - 1) as nat).after_capture(texts[n - 1])
    }
}

/// What capturing `texts` one after another hands back.
pub open spec fn captured_texts(st: WriterState, tw: nat, texts: Seq<Seq<char>>) -> Seq<Seq<char>> {
    Seq::new(texts.len(), |i: int| captures_state(st, texts, i as nat).emitted(tw, texts[i]))
}

/// The state after writing the base list that follows `is`; it stays on one
/// line exactly when it fits in the line length.
pub open spec fn bases_state(st: WriterState, config: FormatterConfig, items: Seq<Seq<char>>) -> WriterState {
    let tw = config.tab_width as nat;
    let multiline = st.width_with(tw, join(items, ", "@).len()) > config.line_length;
    let s2 = if multiline {
        st.write(tw, "\n"@).indent(1)
    } else {
        st.write(tw, " "@)
    };
    let s3 = write_separated_state(s2, tw, items, ", "@, multiline);
    if multiline {
        s3.dedent(1).write(tw, "\n"@)
    } else {
        s3.write(tw, " "@)
    }
}

/// The state after writing the documentation, the keyword, the name and the bases.
pub open spec fn contract_head_state(
    st: WriterState,
    config: FormatterConfig,
    src: Seq<char>,
    c: ContractDefinition,
) -> WriterState {
    let tw = config.tab_width as nat;
    let s1 = docs_state(st, tw, c.doc@, c.doc@.len()).write(
        tw,
        c.ty.spec_text() + " "@ + c.name@ + " "@,
    );
    if c.base@.len() == 0 {
        s1
    } else {
        let s2 = s1.write(tw, "is"@);
        let texts = bases_text(src, c.base@);
        bases_state(
            captures_state(s2, texts, texts.len()),
            config,
            captured_texts(s2, tw, texts),
        )
    }
}

/// The state after writing an aggregate type definition.
pub open spec fn contract_state(
    st: WriterState,
    config: FormatterConfig,
    src: Seq<char>,
    c: ContractDefinition,
) -> WriterState {
    let tw = config.tab_width as nat;
    let s1 = contract_head_state(st, config, src, c);
    if c.parts@.len() == 0 {
        s1.write(tw, empty_brackets(config))
    } else {
        members_state(s1.write(tw, "{\n"@).indent(1), config, src, c.parts@, c.parts@.len()).dedent(
            1,
        ).write(tw, "}"@)
    }
}


/// The state after writing a top-level unit.
pub open spec fn unit_state(
    st: WriterState,
    config: FormatterConfig,
    src: Seq<char>,
    u: SourceUnitPart,
) -> WriterState {
    let tw = config.tab_width as nat;
    match u {
        SourceUnitPart::Pragma { name, value, .. } => st.write(
            tw,
            "pragma "@ + name@ + pragma_value(name@, value@) + ";"@,
        ),
        SourceUnitPart::ImportPlain { path, .. } => st.write(tw, "import \""@ + path@ + "\";"@),
        SourceUnitPart::ImportGlobal { path, alias, .. } => st.write(
            tw,
            "import \""@ + path@ + "\" as "@ + alias@ + ";"@,
        ),
        SourceUnitPart::ImportRenames { imports, from, .. } => renames_state(
            st,
            config,
            sort_seq(renames_text(imports@)),
            from@,
        ),
        SourceUnitPart::Contract(c) => contract_state(st, config, src, c),
        SourceUnitPart::Enum(e) => enum_state(st, config, e),
        SourceUnitPart::Function(f) => function_state(st, config, src, f),
        SourceUnitPart::Variable(v) => var_state(st, config, src, v),
    }
}

/// Whether a blank line follows top-level unit `i`: it is not the last, and it
/// is not an import, or the next unit is a declaration.
pub open spec fn blank_after_unit(parts: Seq<SourceUnitPart>, i: int) -> bool {
    i + 1 < parts.len() && (!parts[i].is_import() || parts[i + 1].is_declaration())
}

/// The state after writing the first `n` top-level units, each followed by a
/// line break and, where `blank_after_unit` says so, a blank line.
pub open spec fn units_state(
    st: WriterState,
    config: FormatterConfig,
    src: Seq<char>,
    parts: Seq<SourceUnitPart>,
    n: nat,
) -> WriterState
    decreases n,
{
    if n == 0 {
        st
    } else {
        let tw = config.tab_width as nat;
        let s = unit_state(units_state(st, config, src, parts, (n - 1) as nat), config, src, parts[n - 1]).write(
            tw,
            "\n"@,
        );
        if blank_after_unit(parts, n - 1) {
            s.write(tw, "\n"@)
        } else {
            s
        }
    }
}

impl Formatter {
    pub fn visit_doc_comment(&mut self, d: &DocComment)
        ensures
            final(self).state() == old(self).state().write(old(self).tab_width(), doc_text(*d)),
            final(self).same_setup(old(self)),
    {
        let mut t = String::from_str("/// @");
        t.append(d.tag.as_str());
        t.append(" ");
        t.append(d.value.as_str());
        self.write_str(t.as_str());
    }

    fn visit_docs(&mut self, docs: &Vec<DocComment>)
        ensures
            final(self).state() == docs_state(
                old(self).state(),
                old(self).tab_width(),
                docs@,
                docs@.len(),
            ),
            final(self).same_setup(old(self)),
    {
        let mut i: usize = 0;
        while i < docs.len()
            invariant
                i <= docs@.len(),
                self.same_setup(old(self)),
                self.state() == docs_state(old(self).state(), old(self).tab_width(), docs@, i as nat),
            decreases docs.len() - i,
        {
            self.visit_doc_comment(&docs[i]);
            self.write_str("\n");
            i = i + 1;
        }
    }

    pub fn visit_pragma(&mut self, name: &String, value: &String)
        ensures
            final(self).state() == old(self).state().write(
                old(self).tab_width(),
                "pragma "@ + name@ + pragma_value(name@, value@) + ";"@,
            ),
            final(self).same_setup(old(self)),
    {
        let mut t = String::from_str("pragma ");
        t.append(name.as_str());
        let solidity = String::from_str("solidity");
        if *name == solidity {
            match normalize_version_req(value.as_str()) {
                Some(v) => t.append(v.as_str()),
                None => t.append(value.as_str()),
            }
        } else {
            t.append(value.as_str());
        }
        t.append(";");
        self.write_str(t.as_str());
    }

    pub fn visit_import_plain(&mut self, path: &String)
        ensures
            final(self).state() == old(self).state().write(
                old(self).tab_width(),
                "import \""@ + path@ + "\";"@,
            ),
            final(self).same_setup(old(self)),
    {
        let mut t = String::from_str("import \"");
        t.append(path.as_str());
        t.append("\";");
        self.write_str(t.as_str());
    }

    pub fn visit_import_global(&mut self, path: &String, alias: &String)
        ensures
            final(self).state() == old(self).state().write(
                old(self).tab_width(),
                "import \""@ + path@ + "\" as "@ + alias@ + ";"@,
            ),
            final(self).same_setup(old(self)),
    {
        let mut t = String::from_str("import \"");
        t.append(path.as_str());
        t.append("\" as ");
        t.append(alias.as_str());
        t.append(";");
        self.write_str(t.as_str());
    }

    /// Writes an import list, its entries sorted.
    pub fn visit_import_renames(&mut self, imports: &Vec<ImportRename>, from: &String)
        ensures
            final(self).state() == renames_state(
                old(self).state(),
                old(self).spec_config(),
                sort_seq(renames_text(imports@)),
                from@,
            ),
            crate::text::is_sorted(sort_seq(renames_text(imports@))),
            sort_seq(renames_text(imports@)).to_multiset() == renames_text(imports@).to_multiset(),
            final(self).same_setup(old(self)),
    {
        self.write_str("import ");
        let mut texts: Vec<String> = Vec::new();
        let mut i: usize = 0;
        while i < imports.len()
            invariant
                i <= imports@.len(),
                texts.deep_view() =~= renames_text(imports@).subrange(0, i as int),
            decreases imports.len() - i,
        {
            let r = &imports[i];
            let mut t = r.name.clone();
            match &r.alias {
                Some(a) => {
                    t.append(" as ");
                    t.append(a.as_str());
                },
                None => {},
            }
            assert(t@ == rename_text(imports@[i as int]));
            let ghost before = texts.deep_view();
            texts.push(t);
            assert(texts.deep_view() =~= before.push(rename_text(imports@[i as int])));
            assert(renames_text(imports@).subrange(0, i + 1) =~= renames_text(imports@).subrange(
                0,
                i as int,
            ).push(rename_text(imports@[i as int])));
            i = i + 1;
        }
        assert(renames_text(imports@).subrange(0, i as int) =~= renames_text(imports@));
        let items = sort_strings(&texts);
        if items.len() == 0 {
            self.write_empty_brackets();
            let mut t = String::from_str(" from \"");
            t.append(from.as_str());
            t.append("\";");
            self.write_str(t.as_str());
            return;
        }
        let multiline = self.is_separated_multiline(&items, ", ");
        if multiline {
            self.write_str("{\n");
            self.indent(1);
        } else {
            self.write_opening_bracket();
        }
        self.write_separated(&items, ", ", multiline);
        if multiline {
            self.dedent(1);
            self.write_str("\n}");
        } else {
            self.write_closing_bracket();
        }
        let mut t = String::from_str(" from \"");
        t.append(from.as_str());
        t.append("\";");
        self.write_str(t.as_str());
        assert(self.state() == renames_state(
            old(self).state(),
            old(self).spec_config(),
            items.deep_view(),
            from@,
        ));
    }

    pub fn visit_enum(&mut self, e: &EnumDefinition)
        ensures
            final(self).state() == enum_state(old(self).state(), old(self).spec_config(), *e),
            final(self).same_setup(old(self)),
    {
        let mut t = String::from_str("enum ");
        t.append(e.name.as_str());
        t.append(" ");
        self.write_str(t.as_str());
        if e.values.len() == 0 {
            self.write_empty_brackets();
        } else {
            self.write_str("{\n");
            self.indent(1);
            let ghost st0 = self.state();
            let ghost v = e.values.deep_view();
            let mut i: usize = 0;
            while i < e.values.len()
                invariant
                    i <= e.values@.len() == v.len(),
                    v == e.values.deep_view(),
                    self.same_setup(old(self)),
                    self.state() == enum_values_state(st0, old(self).tab_width(), v, i as nat),
                decreases e.values.len() - i,
            {
                self.write_str(e.values[i].as_str());
                if i != e.values.len() - 1 {
                    self.write_str(",");
                }
                self.write_str("\n");
                i = i + 1;
            }
            self.dedent(1);
            self.write_str("}");
        }
    }

    pub fn visit_function(&mut self, f: &FunctionDefinition)
        requires
            f.wf(old(self).spec_source().len()),
        ensures
            final(self).state() == function_state(
                old(self).state(),
                old(self).spec_config(),
                old(self).spec_source(),
                *f,
            ),
            final(self).same_setup(old(self)),
    {
        self.visit_docs(&f.doc);
        if f.ty == FunctionTy::Constructor {
            let trimmed = trim_end_str(self.source().substring_char(f.loc.start, f.loc.end));
            self.write_str(trimmed.as_str());
        } else {
            self.visit_source(f.loc);
        }
        match f.body {
            Some(b) => {
                self.write_str(" ");
                self.visit_source(b);
            },
            None => {
                self.write_str(";");
            },
        }
    }

    pub fn visit_var_def(&mut self, v: &VariableDefinition)
        requires
            span_ok(v.loc, old(self).spec_source().len()),
        ensures
            final(self).state() == var_state(
                old(self).state(),
                old(self).spec_config(),
                old(self).spec_source(),
                *v,
            ),
            final(self).same_setup(old(self)),
    {
        self.visit_source(v.loc);
        self.write_str(";");
    }

    fn visit_contract_part(&mut self, p: &ContractPart)
        requires
            p.wf(old(self).spec_source().len()),
        ensures
            final(self).state() == part_state(
                old(self).state(),
                old(self).spec_config(),
                old(self).spec_source(),
                *p,
            ),
            final(self).same_setup(old(self)),
    {
        match p {
            ContractPart::Enum(e) => self.visit_enum(e),
            ContractPart::Function(f) => self.visit_function(f),
            ContractPart::Variable(v) => self.visit_var_def(v),
        }
    }

    fn visit_bases(&mut self, base: &Vec<Loc>)
        requires
            base@.len() > 0,
            forall|i: int| 0 <= i < base@.len() ==> span_ok(#[trigger] base@[i], old(self).spec_source().len()),
        ensures
            final(self).state() == bases_state(
                captures_state(old(self).state(), bases_text(old(self).spec_source(), base@), base@.len()),
                old(self).spec_config(),
                captured_texts(old(self).state(), old(self).tab_width(), bases_text(old(self).spec_source(), base@)),
            ),
            final(self).same_setup(old(self)),
    {
        let ghost src = self.spec_source();
        let ghost texts = bases_text(src, base@);
        let mut bases: Vec<String> = Vec::new();
        let mut i: usize = 0;
        while i < base.len()
            invariant
                i <= base@.len(),
                forall|i: int| 0 <= i < base@.len() ==> span_ok(#[trigger] base@[i], src.len()),
                src == old(self).spec_source(),
                self.same_setup(old(self)),
                texts == bases_text(src, base@),
                texts.len() == base@.len(),
                self.state() == captures_state(old(self).state(), texts, i as nat),
                bases.deep_view() =~= captured_texts(old(self).state(), old(self).tab_width(), texts).subrange(0, i as int),
            decreases base.len() - i,
        {
            let b = self.visit_to_string(base[i]);
            let ghost before = bases.deep_view();
            bases.push(b);
            assert(bases.deep_view() =~= before.push(captured_texts(old(self).state(), old(self).tab_width(), texts)[i as int]));
            assert(captured_texts(old(self).state(), old(self).tab_width(), texts).subrange(0, i + 1) =~= captured_texts(old(self).state(), old(self).tab_width(), texts).subrange(
                0,
                i as int,
            ).push(captured_texts(old(self).state(), old(self).tab_width(), texts)[i as int]));
            i = i + 1;
        }
        assert(captured_texts(old(self).state(), old(self).tab_width(), texts).subrange(0, i as int) =~= captured_texts(old(self).state(), old(self).tab_width(), texts));
        let multiline = self.is_separated_multiline(&bases, ", ");
        if multiline {
            self.write_str("\n");
            self.indent(1);
        } else {
            self.write_str(" ");
        }
        self.write_separated(&bases, ", ", multiline);
        if multiline {
            self.dedent(1);
            self.write_str("\n");
        } else {
            self.write_str(" ");
        }
    }

    /// Writes an aggregate type definition: its bases on one line where they
    /// fit, else one per line; its members one per line, with a blank line
    /// between two of them where the source had more than one line break after
    /// the character that follows the first.
    pub fn visit_contract(&mut self, c: &ContractDefinition)
        requires
            c.wf(old(self).spec_source().len()),
        ensures
            final(self).state() == contract_state(
                old(self).state(),
                old(self).spec_config(),
                old(self).spec_source(),
                *c,
            ),
            final(self).same_setup(old(self)),
    {
        let ghost src = self.spec_source();
        self.visit_docs(&c.doc);
        let mut t = String::from_str(c.ty.text());
        t.append(" ");
        t.append(c.name.as_str());
        t.append(" ");
        self.write_str(t.as_str());
        if c.base.len() > 0 {
            self.write_str("is");
            self.visit_bases(&c.base);
        }
        assert(self.state() == contract_head_state(old(self).state(), old(self).spec_config(), src, *c));
        if c.parts.len() == 0 {
            self.write_empty_brackets();
        } else {
            self.write_str("{\n");
            self.indent(1);
            let ghost st0 = self.state();
            let n = c.parts.len();
            let mut i: usize = 0;
            while i < n
                invariant
                    i <= n == c.parts@.len(),
                    c.wf(src.len()),
                    src == old(self).spec_source(),
                    self.same_setup(old(self)),
                    self.state() == members_state(st0, old(self).spec_config(), src, c.parts@, i as nat),
                decreases n - i,
            {
                let part = &c.parts[i];
                assert(part.wf(src.len()));
                self.visit_contract_part(part);
                self.write_str("\n");
                if i != n - 1 {
                    let from = part.loc().end.saturating_add(1);
                    let to = c.parts[i + 1].loc().start;
                    assert(span_ok(c.parts@[i + 1].spec_loc(), src.len()));
                    let lines = count_newlines_between(self.source(), from, to);
                    if lines > 1 {
                        self.write_str("\n");
                    }
                }
                i = i + 1;
            }
            self.dedent(1);
            self.write_str("}");
        }
    }

    fn visit_source_unit_part(&mut self, u: &SourceUnitPart)
        requires
            u.wf(old(self).spec_source().len()),
        ensures
            final(self).state() == unit_state(
                old(self).state(),
                old(self).spec_config(),
                old(self).spec_source(),
                *u,
            ),
            final(self).same_setup(old(self)),
    {
        match u {
            SourceUnitPart::Pragma { name, value, .. } => self.visit_pragma(name, value),
            SourceUnitPart::ImportPlain { path, .. } => self.visit_import_plain(path),
            SourceUnitPart::ImportGlobal { path, alias, .. } => self.visit_import_global(path, alias),
            SourceUnitPart::ImportRenames { imports, from, .. } => self.visit_import_renames(imports, from),
            SourceUnitPart::Contract(c) => self.visit_contract(c),
            SourceUnitPart::Enum(e) => self.visit_enum(e),
            SourceUnitPart::Function(f) => self.visit_function(f),
            SourceUnitPart::Variable(v) => self.visit_var_def(v),
        }
    }

    /// Writes every top-level unit in source order, each on its own line(s).
    pub fn visit_source_unit(&mut self, unit: &SourceUnit)
        requires
            unit.wf(old(self).spec_source().len()),
        ensures
            final(self).state() == units_state(
                old(self).state(),
                old(self).spec_config(),
                old(self).spec_source(),
                unit.parts@,
                unit.parts@.len(),
            ),
            final(self).same_setup(old(self)),
    {
        let n = unit.parts.len();
        let mut i: usize = 0;
        while i < n
            invariant
                i <= n == unit.parts@.len(),
                unit.wf(old(self).spec_source().len()),
                self.same_setup(old(self)),
                self.state() == units_state(
                    old(self).state(),
                    old(self).spec_config(),
                    old(self).spec_source(),
                    unit.parts@,
                    i as nat,
                ),
            decreases n - i,
        {
            let part = &unit.parts[i];
            assert(part.wf(old(self).spec_source().len()));
            self.visit_source_unit_part(part);
            self.write_str("\n");
            if i + 1 < n && (!part.is_import_directive() || unit.parts[i + 1].is_declaration_unit()) {
                self.write_str("\n");
            }
            i = i + 1;
        }
    }
}

} // verus!
