//! The layout writer: indentation, the pending-indent flag, the length of the
//! line being built, and a stack of captures that render text for measuring.
use vstd::prelude::*;

use crate::config::FormatterConfig;
use crate::outside::write_indented;
use crate::text::{indent_lines, join, join_items, make_spaces, spaces, trim_end, trim_end_str};
use crate::tree::{span_ok, Loc};

verus! {

/// A capture in progress: the level it indents by, the text it holds, and the
/// line length to go back to when it ends.
pub struct Frame {
    pub level: nat,
    pub text: Seq<char>,
    pub saved_line: nat,
}

/// The writer's state as values.
pub struct WriterState {
    pub out: Seq<char>,
    pub level: nat,
    pub pending: bool,
    pub line: nat,
    pub bufs: Seq<Frame>,
}

/// `x`, capped at the largest `usize`.
pub open spec fn sat(x: int) -> nat {
    if x > usize::MAX {
        usize::MAX as nat
    } else if x < 0 {
        0
    } else {
        x as nat
    }
}

impl WriterState {
    /// The level that indentation currently uses: the innermost capture's, else the global one.
    pub open spec fn cur_level(self) -> nat {
        if self.bufs.len() > 0 {
            self.bufs.last().level
        } else {
            self.level
        }
    }

    /// Where writes currently land.
    pub open spec fn target(self) -> Seq<char> {
        if self.bufs.len() > 0 {
            self.bufs.last().text
        } else {
            self.out
        }
    }

    pub open spec fn with_target(self, t: Seq<char>) -> WriterState {
        if self.bufs.len() > 0 {
            let f = self.bufs.last();
            WriterState { bufs: self.bufs.update(self.bufs.len() - 1, Frame { text: t, ..f }), ..self }
        } else {
            WriterState { out: t, ..self }
        }
    }

    pub open spec fn with_level(self, l: nat) -> WriterState {
        if self.bufs.len() > 0 {
            let f = self.bufs.last();
            WriterState { bufs: self.bufs.update(self.bufs.len() - 1, Frame { level: l, ..f }), ..self }
        } else {
            WriterState { level: l, ..self }
        }
    }

    /// The indentation written before a line at the current level.
    pub open spec fn indentation(self, tab_width: nat) -> Seq<char> {
        spaces(sat((tab_width * self.cur_level()) as int))
    }

    /// What writing `s` appends: `s`, indented line by line when at the start of a line.
    pub open spec fn emitted(self, tab_width: nat, s: Seq<char>) -> Seq<char> {
        if self.pending {
            indent_lines(self.indentation(tab_width), s)
        } else {
            s
        }
    }

    /// The state after writing `s`.
    pub open spec fn write(self, tab_width: nat, s: Seq<char>) -> WriterState {
        let p = s.len() > 0 && s.last() == '\n';
        WriterState {
            pending: p,
            line: if p {
                0
            } else {
                sat((self.line + s.len()) as int)
            },
            ..self.with_target(self.target() + self.emitted(tab_width, s))
        }
    }

    pub open spec fn indent(self, delta: nat) -> WriterState {
        self.with_level(sat((self.cur_level() + delta) as int))
    }

    pub open spec fn dedent(self, delta: nat) -> WriterState {
        self.with_level(sat(self.cur_level() - delta))
    }

    /// The state after a capture begins: a fresh text at the current level;
    /// the pending-indent flag stays as it is.
    pub open spec fn begin_capture(self) -> WriterState {
        WriterState {
            bufs: self.bufs.push(Frame { level: self.cur_level(), text: seq![], saved_line: self.line }),
            line: 0,
            ..self
        }
    }

    /// The state after the innermost capture ends: the line length is restored,
    /// unless the capture left the writer at the start of a line.
    pub open spec fn end_capture(self) -> WriterState {
        let f = self.bufs.last();
        WriterState {
            bufs: self.bufs.drop_last(),
            line: if self.pending {
                0
            } else {
                f.saved_line
            },
            ..self
        }
    }

    /// The state after `s` was written into a capture and the capture ended:
    /// the pending-indent flag follows what was written, and a line start
    /// leaves the line empty.
    pub open spec fn after_capture(self, s: Seq<char>) -> WriterState {
        let p = s.len() > 0 && s.last() == '\n';
        WriterState {
            pending: p,
            line: if p {
                0
            } else {
                self.line
            },
            ..self
        }
    }

    /// The length of the current line once `n` more characters are put on it,
    /// counting the indentation that is still to come.
    pub open spec fn width_with(self, tab_width: nat, n: nat) -> nat {
        let ind: nat = if self.pending {
            sat((tab_width * self.cur_level()) as int)
        } else {
            0
        };
        sat((sat((ind + self.line) as int) + n) as int)
    }
}

/// The state a run starts in: nothing written, level 0, at the start of a line.
pub open spec fn initial_state() -> WriterState {
    WriterState { out: seq![], level: 0, pending: true, line: 0, bufs: seq![] }
}

/// The bracket that opens a non-empty body.
pub open spec fn opening_bracket(config: FormatterConfig) -> Seq<char> {
    if config.bracket_spacing {
        "{ "@
    } else {
        "{"@
    }
}

/// The bracket that closes a non-empty body.
pub open spec fn closing_bracket(config: FormatterConfig) -> Seq<char> {
    if config.bracket_spacing {
        " }"@
    } else {
        "}"@
    }
}

/// The brackets of an empty body.
pub open spec fn empty_brackets(config: FormatterConfig) -> Seq<char> {
    if config.bracket_spacing {
        "{ }"@
    } else {
        "{}"@
    }
}

/// The state after writing `items` one per line: each but the last followed by
/// `sep` and a line break; `n` items of them so far.
pub open spec fn write_lines(
    st: WriterState,
    tab_width: nat,
    items: Seq<Seq<char>>,
    sep: Seq<char>,
    n: nat,
) -> WriterState
    decreases n,
{
    if n == 0 {
        st
    } else {
        let prev = write_lines(st, tab_width, items, sep, (n - 1) as nat);
        let w = prev.write(tab_width, items[n - 1]);
        if n - 1 != items.len() - 1 {
            w.write(tab_width, sep).write(tab_width, "\n"@)
        } else {
            w
        }
    }
}

/// The state after writing `items` with `sep` between them, on one line or one per line.
pub open spec fn write_separated_state(
    st: WriterState,
    tab_width: nat,
    items: Seq<Seq<char>>,
    sep: Seq<char>,
    multiline: bool,
) -> WriterState {
    if multiline {
        write_lines(st, tab_width, items, trim_end(sep), items.len())
    } else {
        st.write(tab_width, join(items, sep))
    }
}

/// `a * b`, capped at the largest `usize`.
fn sat_mul(a: usize, b: usize) -> (r: usize)
    ensures
        r == sat((a * b) as int),
{
    match a.checked_mul(b) {
        Some(x) => x,
        None => usize::MAX,
    }
}

/// A capture in progress.
pub struct Capture {
    level: usize,
    text: String,
    current_line: usize,
}

/// A Solidity formatter: it writes into its own output, reading spans of `source`.
pub struct Formatter {
    out: String,
    source: String,
    config: FormatterConfig,
    level: usize,
    pending_indent: bool,
    bufs: Vec<Capture>,
    current_line: usize,
}

impl Capture {
    pub closed spec fn view(&self) -> Frame {
        Frame {
            level: self.level as nat,
            text: self.text@,
            saved_line: self.current_line as nat,
        }
    }
}

impl Formatter {
    /// The writer's state.
    pub closed spec fn state(&self) -> WriterState {
        WriterState {
            out: self.out@,
            level: self.level as nat,
            pending: self.pending_indent,
            line: self.current_line as nat,
            bufs: self.bufs@.map_values(|c: Capture| c.view()),
        }
    }

    /// The source text that spans point into.
    pub closed spec fn spec_source(&self) -> Seq<char> {
        self.source@
    }

    /// The settings of this run.
    pub closed spec fn spec_config(&self) -> FormatterConfig {
        self.config
    }

    pub open spec fn tab_width(&self) -> nat {
        self.spec_config().tab_width as nat
    }

    /// Everything but the writer's state is as in `other`.
    pub open spec fn same_setup(&self, other: &Formatter) -> bool {
        self.spec_source() == other.spec_source() && self.spec_config() == other.spec_config()
    }

    pub fn new(source: String, config: FormatterConfig) -> (r: Self)
        ensures
            r.state() == initial_state(),
            r.spec_source() == source@,
            r.spec_config() == config,
    {
        let r = Formatter {
            out: String::new(),
            source,
            config,
            level: 0,
            pending_indent: true,
            bufs: Vec::new(),
            current_line: 0,
        };
        assert(r.state().bufs =~= seq![]);
        r
    }

    /// Ends the run and hands back the text written outside of captures.
    pub fn into_output(self) -> (r: String)
        ensures
            r@ == self.state().out,
    {
        self.out
    }

    /// The text written so far outside of captures.
    pub fn output(&self) -> (r: &str)
        ensures
            r@ == self.state().out,
    {
        self.out.as_str()
    }

    /// The source text.
    pub fn source(&self) -> (r: &str)
        ensures
            r@ == self.spec_source(),
    {
        self.source.as_str()
    }

    /// The settings.
    pub fn config(&self) -> (r: FormatterConfig)
        ensures
            r == self.spec_config(),
    {
        self.config
    }

    /// The indentation level that writes use now.
    pub fn level(&self) -> (r: usize)
        ensures
            r == self.state().cur_level(),
    {
        if self.bufs.len() > 0 {
            self.bufs[self.bufs.len() - 1].level
        } else {
            self.level
        }
    }

    fn set_level(&mut self, l: usize)
        ensures
            final(self).state() == old(self).state().with_level(l as nat),
            final(self).same_setup(old(self)),
    {
        let n = self.bufs.len();
        if n > 0 {
            let mut top = self.bufs.pop().unwrap();
            top.level = l;
            self.bufs.push(top);
            assert(self.state().bufs =~= old(self).state().with_level(l as nat).bufs);
        } else {
            self.level = l;
        }
    }

    pub fn indent(&mut self, delta: usize)
        ensures
            final(self).state() == old(self).state().indent(delta as nat),
            final(self).same_setup(old(self)),
    {
        let l = self.level();
        self.set_level(l.saturating_add(delta));
    }

    pub fn dedent(&mut self, delta: usize)
        ensures
            final(self).state() == old(self).state().dedent(delta as nat),
            final(self).same_setup(old(self)),
    {
        let l = self.level();
        self.set_level(l.saturating_sub(delta));
    }

    fn append_target(&mut self, t: &str)
        ensures
            final(self).state() == old(self).state().with_target(old(self).state().target() + t@),
            final(self).same_setup(old(self)),
    {
        let n = self.bufs.len();
        if n > 0 {
            let mut top = self.bufs.pop().unwrap();
            top.text.append(t);
            self.bufs.push(top);
            assert(self.state().bufs =~= old(self).state().with_target(
                old(self).state().target() + t@,
            ).bufs);
        } else {
            self.out.append(t);
        }
    }

    /// Writes `s`, first indenting each of its non-empty lines when at the start of a line.
    pub fn write_str(&mut self, s: &str)
        ensures
            final(self).state() == old(self).state().write(old(self).tab_width(), s@),
            final(self).same_setup(old(self)),
    {
        let lvl = self.level();
        let ind = make_spaces(sat_mul(self.config.tab_width, lvl));
        let e = if self.pending_indent {
            write_indented(ind.as_str(), s)
        } else {
            String::from_str(s)
        };
        self.append_target(e.as_str());
        let n = s.unicode_len();
        let p = n > 0 && s.get_char(n - 1) == '\n';
        self.pending_indent = p;
        self.current_line = if p {
            0
        } else {
            self.current_line.saturating_add(n)
        };
        assert(self.state().bufs =~= old(self).state().write(old(self).tab_width(), s@).bufs);
    }

    /// Writes the bracket that opens a non-empty body.
    pub fn write_opening_bracket(&mut self)
        ensures
            final(self).state() == old(self).state().write(
                old(self).tab_width(),
                opening_bracket(old(self).spec_config()),
            ),
            final(self).same_setup(old(self)),
    {
        self.write_str(
            if self.config.bracket_spacing {
                "{ "
            } else {
                "{"
            },
        )
    }

    /// Writes the bracket that closes a non-empty body.
    pub fn write_closing_bracket(&mut self)
        ensures
            final(self).state() == old(self).state().write(
                old(self).tab_width(),
                closing_bracket(old(self).spec_config()),
            ),
            final(self).same_setup(old(self)),
    {
        self.write_str(
            if self.config.bracket_spacing {
                " }"
            } else {
                "}"
            },
        )
    }

    /// Writes the brackets of an empty body.
    pub fn write_empty_brackets(&mut self)
        ensures
            final(self).state() == old(self).state().write(
                old(self).tab_width(),
                empty_brackets(old(self).spec_config()),
            ),
            final(self).same_setup(old(self)),
    {
        self.write_str(
            if self.config.bracket_spacing {
                "{ }"
            } else {
                "{}"
            },
        )
    }

    /// The length of the current line with `s` put on it.
    pub fn len_indented_with_current(&self, s: &str) -> (r: usize)
        ensures
            r == self.state().width_with(self.tab_width(), s@.len()),
    {
        let ind = if self.pending_indent {
            sat_mul(self.config.tab_width, self.level())
        } else {
            0
        };
        ind.saturating_add(self.current_line).saturating_add(s.unicode_len())
    }

    /// Whether `items` joined by `separator` would run past the line length on the current line.
    pub fn is_separated_multiline(&self, items: &Vec<String>, separator: &str) -> (r: bool)
        ensures
            r == (self.state().width_with(
                self.tab_width(),
                join(items.deep_view(), separator@).len(),
            ) > self.spec_config().line_length),
    {
        let joined = join_items(items, separator);
        self.len_indented_with_current(joined.as_str()) > self.config.line_length
    }

    /// Writes `items` separated by `separator`: on one line, or one per line with
    /// the separator's trailing white space left off.
    pub fn write_separated(&mut self, items: &Vec<String>, separator: &str, multiline: bool)
        ensures
            final(self).state() == write_separated_state(
                old(self).state(),
                old(self).tab_width(),
                items.deep_view(),
                separator@,
                multiline,
            ),
            final(self).same_setup(old(self)),
    {
        let ghost v = items.deep_view();
        if multiline {
            let sep = trim_end_str(separator);
            let mut i: usize = 0;
            while i < items.len()
                invariant
                    i <= items.len() == v.len(),
                    v == items.deep_view(),
                    sep@ == trim_end(separator@),
                    self.same_setup(old(self)),
                    self.state() == write_lines(
                        old(self).state(),
                        old(self).tab_width(),
                        v,
                        sep@,
                        i as nat,
                    ),
                decreases items.len() - i,
            {
                self.write_str(items[i].as_str());
                if i != items.len() - 1 {
                    self.write_str(sep.as_str());
                    self.write_str("\n");
                }
                i = i + 1;
            }
        } else {
            let joined = join_items(items, separator);
            self.write_str(joined.as_str());
        }
    }

    /// Starts rendering into a capture of its own.
    pub fn begin_capture(&mut self)
        ensures
            final(self).state() == old(self).state().begin_capture(),
            final(self).same_setup(old(self)),
    {
        let l = self.level();
        self.bufs.push(
            Capture {
                level: l,
                text: String::new(),
                current_line: self.current_line,
            },
        );
        self.current_line = 0;
        assert(self.state().bufs =~= old(self).state().begin_capture().bufs);
    }

    /// Ends the innermost capture and hands back what it holds.
    pub fn end_capture(&mut self) -> (r: String)
        requires
            old(self).state().bufs.len() > 0,
        ensures
            r@ == old(self).state().target(),
            final(self).state() == old(self).state().end_capture(),
            final(self).same_setup(old(self)),
    {
        let c = self.bufs.pop().unwrap();
        self.current_line = if self.pending_indent {
            0
        } else {
            c.current_line
        };
        assert(self.state().bufs =~= old(self).state().end_capture().bufs);
        c.text
    }

    /// Writes the source text under `loc` as it stands.
    pub fn visit_source(&mut self, loc: Loc)
        requires
            span_ok(loc, old(self).spec_source().len()),
        ensures
            final(self).state() == old(self).state().write(
                old(self).tab_width(),
                old(self).spec_source().subrange(loc.start as int, loc.end as int),
            ),
            final(self).same_setup(old(self)),
    {
        let t = String::from_str(self.source.as_str().substring_char(loc.start, loc.end));
        self.write_str(t.as_str());
    }

    /// Renders the source under `loc` into a capture and hands it back: it is
    /// indented as a write would indent it. Of the writer's state only the
    /// pending-indent flag changes, as that write would change it.
    pub fn visit_to_string(&mut self, loc: Loc) -> (r: String)
        requires
            span_ok(loc, old(self).spec_source().len()),
        ensures
            r@ == old(self).state().emitted(
                old(self).tab_width(),
                old(self).spec_source().subrange(loc.start as int, loc.end as int),
            ),
            final(self).state() == old(self).state().after_capture(
                old(self).spec_source().subrange(loc.start as int, loc.end as int),
            ),
            final(self).same_setup(old(self)),
    {
        self.begin_capture();
        self.visit_source(loc);
        let r = self.end_capture();
        assert(self.state().bufs =~= old(self).state().bufs);
        assert(self.state() =~= old(self).state().after_capture(
            old(self).spec_source().subrange(loc.start as int, loc.end as int),
        ));
        r
    }
}

} // verus!
