//! Properties of the layout that hold for every input, proved from the
//! statements of the writer and the visitor.
use vstd::prelude::*;

use crate::config::FormatterConfig;
use crate::text::{indent_lines_from, is_sorted, join, lemma_sort_seq, lemma_sorted_unique, sort_seq};
use crate::tree::{ContractDefinition, ContractPart, EnumDefinition, ImportRename};
use crate::visit::{
    bases_text, captured_texts, captures_state, docs_state,
    renames_text,
    bases_state, blank_after,
    contract_head_state, contract_state, enum_state, newlines_between, members_state,
    part_state, renames_state,
};
use crate::writer::{closing_bracket, empty_brackets, opening_bracket, sat, write_lines, WriterState};

verus! {

/// A non-empty text without line breaks: one that fits on one line.
pub open spec fn one_line(s: Seq<char>) -> bool {
    s.len() > 0 && forall|i: int| 0 <= i < s.len() ==> s[i] != '\n'
}

/// The items one per line, each after `ind`, each but the last followed by `,`
/// and a line break; the first `n` of them.
pub open spec fn exploded(ind: Seq<char>, items: Seq<Seq<char>>, n: nat) -> Seq<char>
    decreases n,
{
    if n == 0 {
        seq![]
    } else {
        exploded(ind, items, (n - 1) as nat) + ind + items[n - 1] + if n - 1 != items.len() - 1 {
            ",\n"@
        } else {
            seq![]
        }
    }
}

/// Whether `t` ends with `e`.
pub open spec fn ends_with(t: Seq<char>, e: Seq<char>) -> bool {
    t.len() >= e.len() && t.subrange(t.len() - e.len(), t.len() as int) == e
}

proof fn lemma_indent_one_line(ind: Seq<char>, s: Seq<char>, need: bool)
    requires
        forall|i: int| 0 <= i < s.len() ==> s[i] != '\n',
    ensures
        indent_lines_from(ind, s, need) == if need && s.len() > 0 {
            ind + s
        } else {
            s
        },
    decreases s.len(),
{
    if s.len() > 0 {
        lemma_indent_one_line(ind, s.drop_first(), false);
        assert(indent_lines_from(ind, s, need) =~= if need && s.len() > 0 {
            ind + s
        } else {
            s
        });
    }
}

proof fn lemma_indent_newline(ind: Seq<char>, need: bool)
    ensures
        indent_lines_from(ind, "\n"@, need) == "\n"@,
{
    reveal_strlit("\n");
    assert("\n"@.drop_first() =~= Seq::<char>::empty());
    reveal_with_fuel(indent_lines_from, 2);
    assert(indent_lines_from(ind, "\n"@, need) =~= "\n"@);
}

proof fn lemma_write_lines(st: WriterState, tw: nat, items: Seq<Seq<char>>, n: nat)
    requires
        st.pending,
        0 < items.len(),
        n <= items.len(),
        forall|k: int| 0 <= k < items.len() ==> one_line(#[trigger] items[k]),
    ensures
        write_lines(st, tw, items, ","@, n).target() == st.target() + exploded(
            st.indentation(tw),
            items,
            n,
        ),
        write_lines(st, tw, items, ","@, n).cur_level() == st.cur_level(),
        write_lines(st, tw, items, ","@, n).bufs.len() == st.bufs.len(),
        write_lines(st, tw, items, ","@, n).pending == (n < items.len()),
    decreases n,
{
    reveal_strlit("\n");
    reveal_strlit(",");
    reveal_strlit(",\n");
    if n > 0 {
        lemma_write_lines(st, tw, items, (n - 1) as nat);
        let prev = write_lines(st, tw, items, ","@, (n - 1) as nat);
        let it = items[n - 1];
        assert(one_line(it));
        lemma_indent_one_line(prev.indentation(tw), it, true);
        assert(it.last() != '\n') by {
            assert(it[it.len() - 1] != '\n');
        }
        let w = prev.write(tw, it);
        assert(w.target() == prev.target() + st.indentation(tw) + it);
        if n - 1 != items.len() - 1 {
            let w2 = w.write(tw, ","@);
            assert(w2.target() == w.target() + ","@);
            assert(","@.last() == ',');
            let w3 = w2.write(tw, "\n"@);
            assert(w3.target() == w2.target() + "\n"@);
            assert("\n"@.last() == '\n');
            assert(w3.pending);
            assert(w3.target() =~= st.target() + exploded(st.indentation(tw), items, n));
        } else {
            assert(w.target() =~= st.target() + exploded(st.indentation(tw), items, n));
        }
    }
}

proof fn lemma_join_one_line(items: Seq<Seq<char>>, sep: Seq<char>)
    requires
        items.len() > 0,
        forall|k: int| 0 <= k < items.len() ==> one_line(#[trigger] items[k]),
    ensures
        join(items, sep).len() > 0,
        join(items, sep).last() != '\n',
{
    let l = items.last();
    assert(one_line(items[items.len() - 1]));
    assert(l[l.len() - 1] != '\n');
    if items.len() > 1 {
        assert(join(items, sep).last() == l.last());
    }
}

/// An import list stays on one line exactly when, written after what the line
/// already holds and its indentation, it fits in the line length; otherwise it
/// is written one entry per line, one level deeper.
pub proof fn law_import_list_width(
    st: WriterState,
    config: FormatterConfig,
    items: Seq<Seq<char>>,
    from: Seq<char>,
)
    requires
        items.len() > 0,
        forall|k: int| 0 <= k < items.len() ==> one_line(#[trigger] items[k]),
    ensures
        ({
            let tw = config.tab_width as nat;
            let s1 = st.write(tw, "import "@);
            let tail = " from \""@ + from + "\";"@;
            if s1.width_with(tw, join(items, ", "@).len()) > config.line_length {
                renames_state(st, config, items, from).target() == s1.target() + "{\n"@ + exploded(
                    spaces_at(tw, sat((s1.cur_level() + 1) as int)),
                    items,
                    items.len(),
                ) + "\n}"@ + tail
            } else {
                renames_state(st, config, items, from).target() == s1.target() + opening_bracket(
                    config,
                ) + join(items, ", "@) + closing_bracket(config) + tail
            }
        }),
{
    reveal_strlit("import ");
    reveal_strlit("{\n");
    reveal_strlit("\n}");
    reveal_strlit("{");
    reveal_strlit("{ ");
    reveal_strlit("}");
    reveal_strlit(" }");
    reveal_strlit(" from \"");
    reveal_strlit("\";");
    let tw = config.tab_width as nat;
    let s1 = st.write(tw, "import "@);
    assert(!s1.pending);
    lemma_join_one_line(items, ", "@);
    if s1.width_with(tw, join(items, ", "@).len()) > config.line_length {
        let s2 = s1.write(tw, "{\n"@).indent(1);
        assert(s2.pending);
        assert(s2.target() == s1.target() + "{\n"@);
        crate::text::lemma_trim_end_comma();
        lemma_write_lines(s2, tw, items, items.len());
    } else {
    }
}

/// A base list stays on the line of `is` exactly when, written after what the
/// line already holds, it fits in the line length; otherwise each base goes on
/// a line of its own, one level deeper, and the body starts on the next line.
pub proof fn law_base_list_width(st: WriterState, config: FormatterConfig, items: Seq<Seq<char>>)
    requires
        !st.pending,
        items.len() > 0,
        forall|k: int| 0 <= k < items.len() ==> one_line(#[trigger] items[k]),
    ensures
        ({
            let tw = config.tab_width as nat;
            if st.width_with(tw, join(items, ", "@).len()) > config.line_length {
                bases_state(st, config, items).target() == st.target() + "\n"@ + exploded(
                    spaces_at(tw, sat((st.cur_level() + 1) as int)),
                    items,
                    items.len(),
                ) + "\n"@
            } else {
                bases_state(st, config, items).target() == st.target() + " "@ + join(items, ", "@)
                    + " "@
            }
        }),
{
    reveal_strlit("\n");
    reveal_strlit(" ");
    let tw = config.tab_width as nat;
    lemma_join_one_line(items, ", "@);
    if st.width_with(tw, join(items, ", "@).len()) > config.line_length {
        let s2 = st.write(tw, "\n"@).indent(1);
        assert(s2.pending);
        crate::text::lemma_trim_end_comma();
        lemma_write_lines(s2, tw, items, items.len());
    }
}

/// Between two neighbouring members of a body the output holds one line break,
/// and a blank line besides exactly when the source had more than one line
/// break between the character after the first member and the second.
pub proof fn law_blank_line_between_members(
    st: WriterState,
    config: FormatterConfig,
    src: Seq<char>,
    parts: Seq<ContractPart>,
    i: nat,
)
    requires
        i + 1 < parts.len(),
    ensures
        ({
            let before = part_state(members_state(st, config, src, parts, i), config, src, parts[i as int]);
            let breaks = newlines_between(
                src,
                sat(parts[i as int].spec_loc().end + 1) as int,
                parts[i + 1 as int].spec_loc().start as int,
            );
            members_state(st, config, src, parts, i + 1).target() == before.target() + if breaks
                > 1 {
                "\n\n"@
            } else {
                "\n"@
            }
        }),
{
    reveal_strlit("\n");
    reveal_strlit("\n\n");
    let tw = config.tab_width as nat;
    let before = part_state(members_state(st, config, src, parts, i), config, src, parts[i as int]);
    lemma_indent_newline(before.indentation(tw), true);
    let s = before.write(tw, "\n"@);
    assert(s.target() == before.target() + "\n"@);
    lemma_indent_newline(s.indentation(tw), true);
    if blank_after(src, parts, i as int) {
        assert(s.write(tw, "\n"@).target() =~= before.target() + "\n\n"@);
    }
}

proof fn lemma_write_empty_brackets(st: WriterState, config: FormatterConfig)
    ensures
        ends_with(st.write(config.tab_width as nat, empty_brackets(config)).target(), empty_brackets(config)),
{
    reveal_strlit("{ }");
    reveal_strlit("{}");
    let tw = config.tab_width as nat;
    let e = empty_brackets(config);
    lemma_indent_one_line(st.indentation(tw), e, st.pending);
    let t = st.write(tw, e).target();
    if st.pending {
        assert(t =~= st.target() + st.indentation(tw) + e);
    } else {
        assert(t =~= st.target() + e);
    }
    assert(t.subrange(t.len() - e.len(), t.len() as int) =~= e);
}

/// An empty body is written `{ }` with bracket spacing and `{}` without, for an
/// enumeration, an aggregate type and an import list alike.
pub proof fn law_empty_body_brackets(
    st: WriterState,
    config: FormatterConfig,
    src: Seq<char>,
    e: EnumDefinition,
    c: ContractDefinition,
    from: Seq<char>,
)
    ensures
        empty_brackets(config) == if config.bracket_spacing {
            "{ }"@
        } else {
            "{}"@
        },
        e.values@.len() == 0 ==> ends_with(enum_state(st, config, e).target(), empty_brackets(config)),
        c.parts@.len() == 0 ==> ends_with(
            contract_state(st, config, src, c).target(),
            empty_brackets(config),
        ),
        renames_state(st, config, seq![], from).target() == st.write(
            config.tab_width as nat,
            "import "@,
        ).target() + empty_brackets(config) + " from \""@ + from + "\";"@,
{
    let tw = config.tab_width as nat;
    reveal_strlit("import ");
    reveal_strlit("{ }");
    reveal_strlit("{}");
    let s1 = st.write(tw, "import "@);
    assert(!s1.pending);
    assert(!s1.write(tw, empty_brackets(config)).pending);
    lemma_write_empty_brackets(st.write(tw, "enum "@ + e.name@ + " "@), config);
    lemma_write_empty_brackets(contract_head_state(st, config, src, c), config);
}

/// The entries of an import list come out sorted, each as often as in the
/// source, and two lists with the same entries in any order are written alike.
pub proof fn law_import_list_sorted(
    st: WriterState,
    config: FormatterConfig,
    a: Seq<ImportRename>,
    b: Seq<ImportRename>,
    from: Seq<char>,
)
    requires
        renames_text(a).to_multiset() == renames_text(b).to_multiset(),
    ensures
        is_sorted(sort_seq(renames_text(a))),
        sort_seq(renames_text(a)).to_multiset() == renames_text(a).to_multiset(),
        sort_seq(renames_text(a)) == sort_seq(renames_text(b)),
        renames_state(st, config, sort_seq(renames_text(a)), from) == renames_state(
            st,
            config,
            sort_seq(renames_text(b)),
            from,
        ),
{
    lemma_sort_seq(renames_text(a));
    lemma_sort_seq(renames_text(b));
    lemma_sorted_unique(sort_seq(renames_text(a)), sort_seq(renames_text(b)));
}

proof fn lemma_captures_mid_line(st: WriterState, tw: nat, texts: Seq<Seq<char>>, n: nat)
    requires
        !st.pending,
        n <= texts.len(),
        forall|k: int| 0 <= k < texts.len() ==> one_line(#[trigger] texts[k]),
    ensures
        captures_state(st, texts, n) == st,
    decreases n,
{
    if n > 0 {
        lemma_captures_mid_line(st, tw, texts, (n - 1) as nat);
        let t = texts[n - 1];
        assert(one_line(t));
        assert(t[t.len() - 1] != '\n');
        assert(captures_state(st, texts, n) =~= st);
    }
}

/// In an aggregate type definition with bases, `is` ends the declaration line;
/// the bases follow on that line, separated by `, `, exactly when they fit in
/// the line length after what the line already holds; otherwise each base
/// stands on a line of its own, one level deeper, each but the last followed by
/// `,`, and the body starts on the next line.
pub proof fn law_contract_base_list(
    st: WriterState,
    config: FormatterConfig,
    src: Seq<char>,
    c: ContractDefinition,
)
    requires
        c.base@.len() > 0,
        forall|k: int| 0 <= k < c.base@.len() ==> one_line(#[trigger] bases_text(src, c.base@)[k]),
    ensures
        ({
            let tw = config.tab_width as nat;
            let s2 = docs_state(st, tw, c.doc@, c.doc@.len()).write(
                tw,
                c.ty.spec_text() + " "@ + c.name@ + " "@,
            ).write(tw, "is"@);
            let items = bases_text(src, c.base@);
            if s2.width_with(tw, join(items, ", "@).len()) > config.line_length {
                contract_head_state(st, config, src, c).target() == s2.target() + "\n"@ + exploded(
                    spaces_at(tw, sat((s2.cur_level() + 1) as int)),
                    items,
                    items.len(),
                ) + "\n"@
            } else {
                contract_head_state(st, config, src, c).target() == s2.target() + " "@ + join(
                    items,
                    ", "@,
                ) + " "@
            }
        }),
{
    reveal_strlit("is");
    let tw = config.tab_width as nat;
    let s2 = docs_state(st, tw, c.doc@, c.doc@.len()).write(
        tw,
        c.ty.spec_text() + " "@ + c.name@ + " "@,
    ).write(tw, "is"@);
    let items = bases_text(src, c.base@);
    assert(!s2.pending);
    lemma_captures_mid_line(s2, tw, items, items.len());
    assert forall|k: int| 0 <= k < items.len() implies captured_texts(s2, tw, items)[k] == items[k] by {
        lemma_captures_mid_line(s2, tw, items, k as nat);
    }
    assert(captured_texts(s2, tw, items) =~= items);
    law_base_list_width(s2, config, items);
}

/// In the body of an aggregate type definition, two neighbouring members are
/// separated by one line break, and by a blank line besides exactly when the
/// source had more than one line break between the character after the first
/// member and the second.
pub proof fn law_contract_members_blank_line(
    st: WriterState,
    config: FormatterConfig,
    src: Seq<char>,
    c: ContractDefinition,
    i: nat,
)
    requires
        i + 1 < c.parts@.len(),
    ensures
        ({
            let tw = config.tab_width as nat;
            let body = contract_head_state(st, config, src, c).write(tw, "{\n"@).indent(1);
            let parts = c.parts@;
            let before = part_state(members_state(body, config, src, parts, i), config, src, parts[i as int]);
            let breaks = newlines_between(
                src,
                sat(parts[i as int].spec_loc().end + 1) as int,
                parts[i + 1 as int].spec_loc().start as int,
            );
            members_state(body, config, src, parts, i + 1).target() == before.target() + if breaks > 1 {
                "\n\n"@
            } else {
                "\n"@
            }
        }),
{
    let tw = config.tab_width as nat;
    let body = contract_head_state(st, config, src, c).write(tw, "{\n"@).indent(1);
    law_blank_line_between_members(body, config, src, c.parts@, i);
}

/// `t` begins with `p`.
pub open spec fn extends(t: Seq<char>, p: Seq<char>) -> bool {
    p.len() <= t.len() && t.subrange(0, p.len() as int) == p
}

proof fn lemma_extends_trans(a: Seq<char>, b: Seq<char>, c: Seq<char>)
    requires
        extends(a, b),
        extends(b, c),
    ensures
        extends(a, c),
{
    assert(a.subrange(0, c.len() as int) =~= b.subrange(0, c.len() as int));
}

proof fn lemma_write_extends(st: WriterState, tw: nat, s: Seq<char>)
    ensures
        extends(st.write(tw, s).target(), st.target()),
        st.write(tw, s).bufs.len() == st.bufs.len(),
{
    let t = st.write(tw, s).target();
    assert(t == st.target() + st.emitted(tw, s));
    assert(t.subrange(0, st.target().len() as int) =~= st.target());
}

proof fn lemma_write_lines_extends(st: WriterState, tw: nat, items: Seq<Seq<char>>, sep: Seq<char>, n: nat)
    ensures
        extends(write_lines(st, tw, items, sep, n).target(), st.target()),
        write_lines(st, tw, items, sep, n).bufs.len() == st.bufs.len(),
    decreases n,
{
    if n == 0 {
        assert(st.target().subrange(0, st.target().len() as int) =~= st.target());
    } else {
        let prev = write_lines(st, tw, items, sep, (n - 1) as nat);
        lemma_write_lines_extends(st, tw, items, sep, (n - 1) as nat);
        let w = prev.write(tw, items[n - 1]);
        lemma_write_extends(prev, tw, items[n - 1]);
        lemma_extends_trans(w.target(), prev.target(), st.target());
        if n - 1 != items.len() - 1 {
            let w2 = w.write(tw, sep);
            lemma_write_extends(w, tw, sep);
            lemma_extends_trans(w2.target(), w.target(), st.target());
            lemma_write_extends(w2, tw, "\n"@);
            lemma_extends_trans(w2.write(tw, "\n"@).target(), w2.target(), st.target());
        }
    }
}

/// For every non-empty import list, whatever its entries hold: when it fits
/// in the line length after what the line already holds, the opening bracket
/// and all entries joined by `, ` follow `import ` on the same line; otherwise
/// a line break follows the opening bracket.
pub proof fn law_import_list_layout(
    st: WriterState,
    config: FormatterConfig,
    items: Seq<Seq<char>>,
    from: Seq<char>,
)
    requires
        items.len() > 0,
    ensures
        ({
            let tw = config.tab_width as nat;
            let s1 = st.write(tw, "import "@);
            let t = renames_state(st, config, items, from).target();
            if s1.width_with(tw, join(items, ", "@).len()) > config.line_length {
                extends(t, s1.target() + "{\n"@)
            } else {
                extends(t, s1.target() + opening_bracket(config) + join(items, ", "@))
            }
        }),
{
    reveal_strlit("import ");
    reveal_strlit("{");
    reveal_strlit("{ ");
    let tw = config.tab_width as nat;
    let s1 = st.write(tw, "import "@);
    assert(!s1.pending);
    let tail = " from \""@ + from + "\";"@;
    if s1.width_with(tw, join(items, ", "@).len()) > config.line_length {
        let s2 = s1.write(tw, "{\n"@).indent(1);
        assert(s2.target() == s1.target() + "{\n"@);
        let s3 = write_lines(s2, tw, items, crate::text::trim_end(", "@), items.len());
        lemma_write_lines_extends(s2, tw, items, crate::text::trim_end(", "@), items.len());
        let s4 = s3.dedent(1).write(tw, "\n}"@);
        lemma_write_extends(s3.dedent(1), tw, "\n}"@);
        lemma_extends_trans(s4.target(), s3.target(), s2.target());
        lemma_write_extends(s4, tw, tail);
        lemma_extends_trans(s4.write(tw, tail).target(), s4.target(), s2.target());
    } else {
        let s2 = s1.write(tw, opening_bracket(config));
        assert(!s2.pending);
        let s3 = s2.write(tw, join(items, ", "@));
        assert(s3.target() == s1.target() + opening_bracket(config) + join(items, ", "@));
        let s4 = s3.write(tw, closing_bracket(config));
        lemma_write_extends(s3, tw, closing_bracket(config));
        lemma_write_extends(s4, tw, tail);
        lemma_extends_trans(s4.write(tw, tail).target(), s4.target(), s3.target());
    }
}

/// For every non-empty base list, whatever its bases hold, written after `is`:
/// when it fits in the line length after what the line already holds, a space
/// and all bases joined by `, ` follow on the same line; otherwise a line
/// break follows `is`.
pub proof fn law_base_list_layout(st: WriterState, config: FormatterConfig, items: Seq<Seq<char>>)
    requires
        !st.pending,
        items.len() > 0,
    ensures
        ({
            let tw = config.tab_width as nat;
            let t = bases_state(st, config, items).target();
            if st.width_with(tw, join(items, ", "@).len()) > config.line_length {
                extends(t, st.target() + "\n"@)
            } else {
                extends(t, st.target() + " "@ + join(items, ", "@))
            }
        }),
{
    reveal_strlit(" ");
    let tw = config.tab_width as nat;
    if st.width_with(tw, join(items, ", "@).len()) > config.line_length {
        let s2 = st.write(tw, "\n"@).indent(1);
        assert(s2.target() == st.target() + "\n"@);
        let s3 = write_lines(s2, tw, items, crate::text::trim_end(", "@), items.len());
        lemma_write_lines_extends(s2, tw, items, crate::text::trim_end(", "@), items.len());
        lemma_write_extends(s3.dedent(1), tw, "\n"@);
        lemma_extends_trans(s3.dedent(1).write(tw, "\n"@).target(), s3.target(), s2.target());
    } else {
        let s2 = st.write(tw, " "@);
        assert(!s2.pending);
        let s3 = s2.write(tw, join(items, ", "@));
        assert(s3.target() == st.target() + " "@ + join(items, ", "@));
        lemma_write_extends(s3, tw, " "@);
    }
}

proof fn lemma_captures_keep_text(st: WriterState, texts: Seq<Seq<char>>, n: nat)
    requires
        n <= texts.len(),
    ensures
        captures_state(st, texts, n).target() == st.target(),
        captures_state(st, texts, n).cur_level() == st.cur_level(),
        n > 0 ==> captures_state(st, texts, n).pending == (texts[n - 1].len() > 0
            && texts[n - 1].last() == '\n'),
    decreases n,
{
    if n > 0 {
        lemma_captures_keep_text(st, texts, (n - 1) as nat);
    }
}

/// In an aggregate type definition whose last base does not end in a line
/// break, whatever the bases hold: when the captured bases fit in the line
/// length after what the line holds, they follow `is` on the same line after a
/// space, joined by `, `; otherwise a line break follows `is`.
pub proof fn law_contract_base_layout(
    st: WriterState,
    config: FormatterConfig,
    src: Seq<char>,
    c: ContractDefinition,
)
    requires
        c.base@.len() > 0,
        !(bases_text(src, c.base@).last().len() > 0 && bases_text(src, c.base@).last().last()
            == '\n'),
    ensures
        ({
            let tw = config.tab_width as nat;
            let s2 = docs_state(st, tw, c.doc@, c.doc@.len()).write(
                tw,
                c.ty.spec_text() + " "@ + c.name@ + " "@,
            ).write(tw, "is"@);
            let texts = bases_text(src, c.base@);
            let cs = captures_state(s2, texts, texts.len());
            let items = captured_texts(s2, tw, texts);
            let t = contract_head_state(st, config, src, c).target();
            if cs.width_with(tw, join(items, ", "@).len()) > config.line_length {
                extends(t, s2.target() + "\n"@)
            } else {
                extends(t, s2.target() + " "@ + join(items, ", "@))
            }
        }),
{
    let tw = config.tab_width as nat;
    let s2 = docs_state(st, tw, c.doc@, c.doc@.len()).write(
        tw,
        c.ty.spec_text() + " "@ + c.name@ + " "@,
    ).write(tw, "is"@);
    let texts = bases_text(src, c.base@);
    lemma_captures_keep_text(s2, texts, texts.len());
    law_base_list_layout(captures_state(s2, texts, texts.len()), config, captured_texts(s2, tw, texts));
}

/// The indentation at `level`.
pub open spec fn spaces_at(tw: nat, level: nat) -> Seq<char> {
    crate::text::spaces(sat((tw * level) as int))
}

} // verus!
