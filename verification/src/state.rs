//! The mutable state a formatting run threads through the tree walk:
//! the output buffer, the indent level and the line-content flag,
//! together with the spec-level transitions each writing step makes.

use crate::formatter::FormatOptions;
use vstd::prelude::*;

verus! {

/// Mathematical model of a formatter state.
pub ghost struct StV {
    /// Characters written so far.
    pub out: Seq<char>,
    /// Current indent level (a depth, not a character count).
    pub indent: nat,
    /// Whether the current output line already has content.
    pub hc: bool,
}

/// `n` space characters.
pub open spec fn spaces(n: nat) -> Seq<char> {
    Seq::new(n, |i: int| ' ')
}

/// Effect of `write_indent`: leading spaces on a line that is still empty.
pub open spec fn sp_indent(s: StV, w: nat) -> StV {
    if !s.hc {
        StV { out: s.out + spaces(s.indent * w), indent: s.indent, hc: s.hc }
    } else {
        s
    }
}

/// Effect of `write_text`: append text and mark the line non-empty.
pub open spec fn sp_text(s: StV, t: Seq<char>) -> StV {
    StV { out: s.out + t, indent: s.indent, hc: true }
}

/// Effect of `write_newline`.
pub open spec fn sp_nl(s: StV) -> StV {
    StV { out: s.out.push('\n'), indent: s.indent, hc: false }
}

/// Effect of `write_blank_line`: finish the current line if it has
/// content, and add one empty line.
pub open spec fn sp_blank(s: StV) -> StV {
    sp_nl(
        if s.hc {
            sp_nl(s)
        } else {
            s
        },
    )
}

/// Effect of `increase_indent`; the depth counter cannot exceed `usize::MAX`.
pub open spec fn sp_inc(s: StV) -> StV {
    StV {
        out: s.out,
        indent: if s.indent < usize::MAX as nat {
            s.indent + 1
        } else {
            s.indent
        },
        hc: s.hc,
    }
}

/// Effect of `decrease_indent`; the depth counter never goes negative.
pub open spec fn sp_dec(s: StV) -> StV {
    StV {
        out: s.out,
        indent: if s.indent > 0 {
            (s.indent - 1) as nat
        } else {
            0
        },
        hc: s.hc,
    }
}

/// Formatter state: output buffer, indent depth and line-content flag.
pub struct FormatterState {
    /// Characters written so far.
    pub output: Vec<char>,
    /// Current indent level.
    pub indent_level: usize,
    /// Whether the current output line already has content.
    pub current_line_has_content: bool,
}

impl View for FormatterState {
    type V = StV;

    open spec fn view(&self) -> StV {
        StV {
            out: self.output@,
            indent: self.indent_level as nat,
            hc: self.current_line_has_content,
        }
    }
}

impl FormatterState {
    /// Fresh state: empty output at indent level zero.
    pub fn new() -> (s: Self)
        ensures
            s@ == (StV { out: Seq::<char>::empty(), indent: 0nat, hc: false }),
    {
        let s = FormatterState { output: Vec::new(), indent_level: 0, current_line_has_content: false };
        proof {
            assert(s@.out =~= Seq::<char>::empty());
        }
        s
    }

    /// On an empty line, write the spaces the current indent level asks for.
    pub fn write_indent(&mut self, opts: &FormatOptions)
        ensures
            final(self)@ == sp_indent(old(self)@, opts.indent_width as nat),
    {
        if !self.current_line_has_content {
            let lvl: usize = self.indent_level;
            let w: usize = opts.indent_width;
            let mut i: usize = 0;
            proof {
                assert(old(self).output@ + spaces(0nat) =~= old(self).output@);
            }
            while i < lvl
                invariant
                    0 <= i <= lvl,
                    lvl == old(self).indent_level,
                    w == opts.indent_width,
                    self.indent_level == old(self).indent_level,
                    self.current_line_has_content == old(self).current_line_has_content,
                    self.output@ == old(self).output@ + spaces((i * w) as nat),
                decreases lvl - i,
            {
                let mut j: usize = 0;
                while j < w
                    invariant
                        0 <= j <= w,
                        0 <= i < lvl,
                        lvl == old(self).indent_level,
                        w == opts.indent_width,
                        self.indent_level == old(self).indent_level,
                        self.current_line_has_content == old(self).current_line_has_content,
                        self.output@ == old(self).output@ + spaces((i * w + j) as nat),
                    decreases w - j,
                {
                    self.output.push(' ');
                    proof {
                        assert(spaces((i * w + j) as nat).push(' ') =~= spaces(
                            (i * w + j + 1) as nat,
                        ));
                        assert(old(self).output@ + spaces((i * w + j + 1) as nat) =~= (old(
                            self,
                        ).output@ + spaces((i * w + j) as nat)).push(' '));
                    }
                    j = j + 1;
                }
                proof {
                    assert(i * w + w == (i + 1) * w) by (nonlinear_arith);
                }
                i = i + 1;
            }
            proof {
                assert(self.output@ == old(self).output@ + spaces(
                    (old(self).indent_level * opts.indent_width) as nat,
                ));
            }
        }
    }

    /// Append the given characters; the line now has content.
    pub fn write_text(&mut self, text: &Vec<char>)
        ensures
            final(self)@ == sp_text(old(self)@, text@),
    {
        let n: usize = text.len();
        let mut k: usize = 0;
        proof {
            assert(old(self).output@ + text@.take(0) =~= old(self).output@);
        }
        while k < n
            invariant
                0 <= k <= n,
                n == text@.len(),
                self.indent_level == old(self).indent_level,
                self.output@ == old(self).output@ + text@.take(k as int),
            decreases n - k,
        {
            self.output.push(text[k]);
            proof {
                assert(old(self).output@ + text@.take(k + 1) =~= (old(self).output@
                    + text@.take(k as int)).push(text@[k as int]));
            }
            k = k + 1;
        }
        self.current_line_has_content = true;
        proof {
            assert(text@.take(n as int) =~= text@);
        }
    }

    /// Append the characters of a literal; the line now has content.
    pub fn write_str(&mut self, text: &str)
        ensures
            final(self)@ == sp_text(old(self)@, text@),
    {
        crate::text::append_str(&mut self.output, text);
        self.current_line_has_content = true;
    }

    /// End the current line.
    pub fn write_newline(&mut self)
        ensures
            final(self)@ == sp_nl(old(self)@),
    {
        self.output.push('\n');
        self.current_line_has_content = false;
    }

    /// Finish the current line if it has content, and leave one empty line.
    pub fn write_blank_line(&mut self)
        ensures
            final(self)@ == sp_blank(old(self)@),
    {
        if self.current_line_has_content {
            self.write_newline();
        }
        self.write_newline();
    }

    /// One level deeper; saturates at the machine limit.
    pub fn increase_indent(&mut self)
        ensures
            final(self)@ == sp_inc(old(self)@),
    {
        if self.indent_level < usize::MAX {
            self.indent_level = self.indent_level + 1;
        }
    }

    /// One level shallower; never below zero.
    pub fn decrease_indent(&mut self)
        ensures
            final(self)@ == sp_dec(old(self)@),
    {
        if self.indent_level > 0 {
            self.indent_level = self.indent_level - 1;
        }
    }
}

} // verus!
