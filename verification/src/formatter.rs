//! The formatting engine: kind-directed rendering of a syntax tree into
//! canonically indented text, pinned to a spec-level rendering function.
//!
//! Every executable piece of the walk carries an `ensures` that equates
//! its effect on the formatter state with a spec function of the node,
//! so the whole rendering is a mathematical function of the tree: the
//! same tree always formats to the same text, for every input tree.

use crate::state::{sp_blank, sp_dec, sp_inc, sp_indent, sp_nl, sp_text, FormatterState, StV};
use crate::text::{
    contains_char, ends_end, ends_with_end, eq_str, find_char, find_char_from, find_pattern,
    find_sub, has_char, is_ws, lemma_find_char_bounds, lemma_find_sub_bounds,
    lemma_trim_no_edge_ws, sans_end_runs, short_line, string_of_chars, strip_end_runs, sub_vec,
    trim, trim_spec, utf8_len,
};
use crate::tree::{kids_v, lemma_kids_v, node_v, NodeKind, NodeV, SyntaxNode};
use vstd::prelude::*;

verus! {

/// What the caller does with the formatted text.
#[derive(Clone, Copy, Debug)]
pub enum Mode {
    /// Print formatted code.
    Stdout,
    /// Write formatted code back to the source file.
    Write,
    /// Only report whether formatting would change the code.
    Check,
}

/// Configuration for a formatting run.
pub struct FormatOptions {
    /// Spaces per indentation level.
    pub indent_width: usize,
    /// What to do with the output.
    pub mode: Mode,
}

impl Default for FormatOptions {
    /// Two-space indentation, printing the result.
    fn default() -> (d: Self)
        ensures
            d.indent_width == 2,
            d.mode is Stdout,
    {
        FormatOptions { indent_width: 2, mode: Mode::Stdout }
    }
}

/// Whether a blank line separates two adjacent top-level declarations,
/// by (kind of the previous one, kind of the current one).
pub open spec fn needs_blank(p: NodeKind, k: NodeKind) -> bool {
    if p is BlockComment && !(k is BlockComment) && !(k is LineComment) {
        true
    } else if p is PrimitiveDefinition && !(k is PrimitiveDefinition) && !(k is LineComment) {
        true
    } else if p is TypeAlias && !(k is TypeAlias) && !(k is LineComment) {
        true
    } else if p is TraitDefinition && !(k is TraitDefinition) && !(k is LineComment) {
        true
    } else if p is ClassDefinition {
        true
    } else if p is UseStatement && !(k is UseStatement) && !(k is LineComment) {
        true
    } else {
        false
    }
}

/// Whether a call expression stands alone as a statement: at the root, or
/// directly inside a block that does not belong to an assignment.
pub open spec fn standalone_call(p: Option<NodeKind>, g: Option<NodeKind>) -> bool {
    ||| p is None
    ||| {
        &&& p matches Some(pk)
        &&& pk is Block
        &&& g matches Some(gk)
        &&& !(gk is AssignmentExpression)
    }
}

/// Position of the first child of the given kind.
pub open spec fn first_kind_idx(ns: Seq<NodeV>, i: int, k: NodeKind) -> Option<int>
    decreases ns.len() - i,
{
    if i < 0 || i >= ns.len() {
        None
    } else if ns[i].kind == k {
        Some(i)
    } else {
        first_kind_idx(ns, i + 1, k)
    }
}

/// Text of the first child of the given kind.
pub open spec fn first_kind_text(ns: Seq<NodeV>, i: int, k: NodeKind) -> Option<Seq<char>> {
    match first_kind_idx(ns, i, k) {
        Some(j) => Some(ns[j].text),
        None => None,
    }
}

/// Whether every child is an assignment expression or a semicolon.
pub open spec fn all_simple_assignments(ns: Seq<NodeV>) -> bool {
    forall|j: int|
        0 <= j < ns.len() ==> (ns[j].kind is AssignmentExpression || ns[j].kind is Semicolon)
}

/// Whether the text opens like a conditional: `if` and a space.
pub open spec fn starts_if(t: Seq<char>) -> bool {
    t.len() >= 3 && t[0] == 'i' && t[1] == 'f' && t[2] == ' '
}

/// The keyword that closes a condition and opens its body, as characters.
pub open spec fn kw_tn() -> Seq<char> {
    seq!['t', 'h', 'e', 'n']
}

/// The argument-list text without its surrounding parentheses.
pub open spec fn strip_parens(t: Seq<char>) -> Seq<char> {
    let a = if t.len() > 0 && t[0] == '(' {
        t.drop_first()
    } else {
        t
    };
    if a.len() > 0 && a[a.len() - 1] == ')' {
        a.drop_last()
    } else {
        a
    }
}

/// Position of the comma that ends the piece starting at `i`, or the end
/// of the text if the piece is the last one.
pub open spec fn comma_or_end(t: Seq<char>, i: int) -> int {
    match find_char(t, ',', i) {
        Some(j) => if i <= j <= t.len() {
            j
        } else {
            t.len() as int
        },
        None => t.len() as int,
    }
}

/// Rendering of the comma-separated pieces of `t` from position `i` on:
/// each piece trimmed, empty pieces dropped, `, ` between pieces.
pub open spec fn sp_args_rest(t: Seq<char>, i: int, first: bool, s: StV) -> StV
    decreases t.len() - i,
{
    if i < 0 || i > t.len() {
        s
    } else {
        let j = comma_or_end(t, i);
        let piece = trim_spec(t.subrange(i, j));
        let s2 = if piece.len() > 0 {
            sp_text(
                if first {
                    s
                } else {
                    sp_text(s, ", "@)
                },
                piece,
            )
        } else {
            s
        };
        let f2 = if piece.len() > 0 {
            false
        } else {
            first
        };
        if j >= t.len() {
            s2
        } else {
            sp_args_rest(t, j + 1, f2, s2)
        }
    }
}

/// Rendering of an argument list: always one line, `, ` separated, no
/// empty arguments, nothing directly inside the parentheses.
pub open spec fn sp_args(t: Seq<char>, s: StV) -> StV {
    sp_text(sp_args_rest(strip_parens(t), 0, true, sp_text(s, "("@)), ")"@)
}

/// Rendering of a region the parser could not structure: a best-effort
/// split on a recognisable condition opener or closer, else verbatim.
pub open spec fn sp_error(t: Seq<char>, s: StV, w: nat) -> StV {
    if starts_if(t) && find_sub(t, kw_tn(), 0) is Some {
        let j = find_sub(t, kw_tn(), 0)->Some_0;
        let pre = t.subrange(0, j);
        let post = t.subrange(j + 4, t.len() as int);
        let s1 = sp_nl(sp_text(sp_indent(s, w), trim_spec(pre) + seq![' ', 't', 'h', 'e', 'n']));
        let s2 = sp_inc(s1);
        if trim_spec(post).len() > 0 {
            sp_text(sp_indent(s2, w), trim_spec(post))
        } else {
            s2
        }
    } else if trim_spec(t) == "end"@ || ends_end(t) {
        let s0 = if trim_spec(t) != "end"@ {
            let content = trim_spec(sans_end_runs(t));
            if content.len() > 0 {
                sp_nl(sp_text(s, content))
            } else {
                s
            }
        } else {
            s
        };
        sp_nl(sp_text(sp_indent(sp_dec(s0), w), "end"@))
    } else {
        sp_nl(sp_text(sp_indent(s, w), t))
    }
}

/// Rendering of a comment: on its own indented line.
pub open spec fn sp_comment(n: NodeV, s: StV, w: nat) -> StV {
    sp_nl(sp_text(sp_indent(s, w), n.text))
}

/// Rendering of a `use` declaration: the keyword and the first string child.
pub open spec fn sp_use(n: NodeV, s: StV, w: nat) -> StV {
    let s1 = sp_text(sp_indent(s, w), "use "@);
    let s2 = match first_kind_text(n.children, 0, NodeKind::StringLit) {
        Some(tx) => sp_text(s1, tx),
        None => s1,
    };
    sp_nl(s2)
}

/// Rendering of an actor or class definition.
pub open spec fn sp_actor(n: NodeV, p: Option<NodeKind>, s: StV, w: nat) -> StV 
    decreases n, 1int,
{
    sp_actor_kids(n.children, 0, n.kind, p, sp_indent(s, w), w)
}

/// Rendering of a trait definition.
pub open spec fn sp_trait(n: NodeV, p: Option<NodeKind>, s: StV, w: nat) -> StV 
    decreases n, 1int,
{
    sp_trait_kids(n.children, 0, p, sp_indent(s, w), w)
}

/// Rendering of a primitive definition.
pub open spec fn sp_prim(n: NodeV, s: StV, w: nat) -> StV {
    sp_nl(sp_prim_kids(n.children, 0, sp_indent(s, w)))
}

/// Rendering of a type definition.
pub open spec fn sp_tdef(n: NodeV, s: StV, w: nat) -> StV {
    let s1 = sp_text(sp_indent(s, w), "type "@);
    let s2 = match first_kind_text(n.children, 0, NodeKind::Identifier) {
        Some(tx) => sp_text(s1, tx),
        None => s1,
    };
    let s3 = match first_kind_idx(n.children, 0, NodeKind::IsKw) {
        Some(j) => {
            let s3a = sp_text(s2, " is "@);
            if j + 1 < n.children.len() {
                sp_text(s3a, n.children[j + 1].text)
            } else {
                s3a
            }
        },
        None => s2,
    };
    sp_nl(s3)
}

/// Rendering of a type alias.
pub open spec fn sp_talias(n: NodeV, s: StV, w: nat) -> StV {
    sp_nl(sp_talias_kids(n.children, 0, sp_text(sp_indent(s, w), "type "@)))
}

/// Rendering of a field.
pub open spec fn sp_field(n: NodeV, s: StV, w: nat) -> StV {
    sp_nl(sp_field_kids(n.children, 0, sp_indent(s, w)))
}

/// Rendering of a method.
pub open spec fn sp_method(n: NodeV, p: Option<NodeKind>, s: StV, w: nat) -> StV 
    decreases n, 1int,
{
    sp_nl(sp_method_kids(n.children, 0, p, sp_indent(s, w), w))
}

/// Rendering of a constructor or function definition.
pub open spec fn sp_ctor(n: NodeV, p: Option<NodeKind>, s: StV, w: nat) -> StV 
    decreases n, 1int,
{
    sp_ctor_kids(n.children, 0, n.kind, p, sp_indent(s, w), w)
}

/// Rendering of a conditional statement.
pub open spec fn sp_ifstmt(n: NodeV, s: StV, w: nat) -> StV 
    decreases n, 1int,
{
    sp_if_kids(n.children, 0, sp_indent(s, w), w)
}

/// Rendering of a block: one line when it is a run of more than two
/// simple assignments, otherwise each child in turn.
pub open spec fn sp_block(n: NodeV, p: Option<NodeKind>, s: StV, w: nat) -> StV 
    decreases n, 1int,
{
    if all_simple_assignments(n.children) && n.children.len() > 2 {
        sp_nl(sp_blk_simple(n.children, 0, true, sp_indent(s, w)))
    } else {
        sp_kids(n.children, 0, Some(n.kind), p, s, w)
    }
}

/// Rendering of a call expression.
pub open spec fn sp_call(n: NodeV, p: Option<NodeKind>, g: Option<NodeKind>, s: StV, w: nat) -> StV 
    decreases n, 1int,
{
    let st = standalone_call(p, g);
    let s0 = if st {
        sp_indent(s, w)
    } else {
        s
    };
    let s1 = sp_call_kids(n.children, 0, p, s0, w);
    if st {
        sp_nl(s1)
    } else {
        s1
    }
}

/// Rendering of an assignment expression.
pub open spec fn sp_asgn(n: NodeV, p: Option<NodeKind>, s: StV, w: nat) -> StV 
    decreases n, 1int,
{
    sp_nl(sp_asgn_kids(n.children, 0, true, p, sp_indent(s, w), w))
}

/// Rendering of a bare assignment: its text on its own indented line.
pub open spec fn sp_assignment(n: NodeV, s: StV, w: nat) -> StV {
    sp_nl(sp_text(sp_indent(s, w), n.text))
}

/// Rendering of one node, given the kinds of its parent and grandparent.
pub open spec fn sp_node(n: NodeV, p: Option<NodeKind>, g: Option<NodeKind>, s: StV, w: nat) -> StV
    decreases n, 2int,
{
    match n.kind {
        NodeKind::SourceFile => sp_src(n.children, 0, None, p, s, w),
        NodeKind::BlockComment => sp_comment(n, s, w),
        NodeKind::LineComment => sp_comment(n, s, w),
        NodeKind::UseStatement => sp_use(n, s, w),
        NodeKind::ActorDefinition => sp_actor(n, p, s, w),
        NodeKind::ClassDefinition => sp_actor(n, p, s, w),
        NodeKind::TraitDefinition => sp_trait(n, p, s, w),
        NodeKind::PrimitiveDefinition => sp_prim(n, s, w),
        NodeKind::TypeDefinition => sp_tdef(n, s, w),
        NodeKind::TypeAlias => sp_talias(n, s, w),
        NodeKind::Members => sp_kids(n.children, 0, Some(n.kind), p, s, w),
        NodeKind::Field => sp_field(n, s, w),
        NodeKind::FieldDefinition => sp_field(n, s, w),
        NodeKind::Method => sp_method(n, p, s, w),
        NodeKind::Constructor => sp_ctor(n, p, s, w),
        NodeKind::FunctionDefinition => sp_ctor(n, p, s, w),
        NodeKind::IfStatement => sp_ifstmt(n, s, w),
        NodeKind::Block => sp_block(n, p, s, w),
        NodeKind::CallExpression => sp_call(n, p, g, s, w),
        NodeKind::AssignmentExpression => sp_asgn(n, p, s, w),
        NodeKind::VariableDeclaration => s,
        NodeKind::Assignment => sp_assignment(n, s, w),
        NodeKind::Error => sp_error(n.text, s, w),
        NodeKind::StringLit => sp_text(s, n.text),
        NodeKind::ActorKw => s,
        NodeKind::ClassKw => s,
        NodeKind::TraitKw => s,
        NodeKind::PrimitiveKw => s,
        NodeKind::NewKw => s,
        NodeKind::FunKw => s,
        NodeKind::BeKw => s,
        NodeKind::LetKw => s,
        NodeKind::VarKw => s,
        NodeKind::EmbedKw => s,
        NodeKind::Identifier => s,
        NodeKind::Parameters => s,
        NodeKind::Colon => s,
        NodeKind::EqSign => s,
        NodeKind::Arrow => s,
        NodeKind::ValKw => s,
        NodeKind::RefKw => s,
        NodeKind::IsoKw => s,
        NodeKind::TrnKw => s,
        NodeKind::BoxKw => s,
        NodeKind::TagKw => s,
        NodeKind::LParen => s,
        NodeKind::RParen => s,
        NodeKind::IfKw => s,
        NodeKind::ThenKw => s,
        NodeKind::EndKw => s,
        NodeKind::IsKw => s,
        NodeKind::Capability => s,
        _ => sp_kids(n.children, 0, Some(n.kind), p, s, w),
    }
}

/// Fold every child through `sp_node`, handing each the given parent and
/// grandparent kinds.
pub open spec fn sp_kids(
    ns: Seq<NodeV>,
    i: int,
    p: Option<NodeKind>,
    g: Option<NodeKind>,
    s: StV,
    w: nat,
) -> StV
    decreases ns, ns.len() - i,
{
    if i < 0 || i >= ns.len() {
        s
    } else {
        sp_kids(ns, i + 1, p, g, sp_node(ns[i], p, g, s, w), w)
    }
}

/// Top-level children: a blank line between declarations where the
/// adjacency table asks for one.
pub open spec fn sp_src(
    ns: Seq<NodeV>,
    i: int,
    prev: Option<NodeKind>,
    g: Option<NodeKind>,
    s: StV,
    w: nat,
) -> StV
    decreases ns, ns.len() - i,
{
    if i < 0 || i >= ns.len() {
        s
    } else {
        let s1 = if prev matches Some(pk) && needs_blank(pk, ns[i].kind) {
            sp_blank(s)
        } else {
            s
        };
        let s2 = sp_node(ns[i], Some(NodeKind::SourceFile), g, s1, w);
        sp_src(ns, i + 1, Some(ns[i].kind), g, s2, w)
    }
}

/// Children of an actor or class definition.
pub open spec fn sp_actor_kids(
    ns: Seq<NodeV>,
    i: int,
    sk: NodeKind,
    sp: Option<NodeKind>,
    s: StV,
    w: nat,
) -> StV
    decreases ns, ns.len() - i,
{
    if i < 0 || i >= ns.len() {
        s
    } else {
        let c = ns[i];
        let s2 = if c.kind is ActorKw || c.kind is ClassKw {
            sp_text(sp_text(s, c.text), " "@)
        } else if c.kind is Capability {
            sp_text(sp_text(s, c.text), " "@)
        } else if c.kind is Identifier {
            sp_text(s, c.text)
        } else if c.kind is IsKw {
            sp_text(s, " is "@)
        } else if c.kind is BaseType {
            sp_text(s, c.text)
        } else if c.kind is Members {
            sp_dec(sp_node(c, Some(sk), sp, sp_inc(sp_nl(s)), w))
        } else {
            s
        };
        sp_actor_kids(ns, i + 1, sk, sp, s2, w)
    }
}

/// Children of a trait definition.
pub open spec fn sp_trait_kids(
    ns: Seq<NodeV>,
    i: int,
    sp: Option<NodeKind>,
    s: StV,
    w: nat,
) -> StV
    decreases ns, ns.len() - i,
{
    if i < 0 || i >= ns.len() {
        s
    } else {
        let c = ns[i];
        let s2 = if c.kind is TraitKw {
            sp_text(sp_text(s, c.text), " "@)
        } else if c.kind is Capability {
            sp_text(sp_text(s, c.text), " "@)
        } else if c.kind is Identifier {
            sp_text(s, c.text)
        } else if c.kind is Members {
            sp_dec(sp_node(c, Some(NodeKind::TraitDefinition), sp, sp_inc(sp_nl(s)), w))
        } else {
            s
        };
        sp_trait_kids(ns, i + 1, sp, s2, w)
    }
}

/// Children of a primitive definition.
pub open spec fn sp_prim_kids(ns: Seq<NodeV>, i: int, s: StV) -> StV
    decreases ns.len() - i,
{
    if i < 0 || i >= ns.len() {
        s
    } else {
        let c = ns[i];
        let s2 = if c.kind is PrimitiveKw {
            sp_text(sp_text(s, c.text), " "@)
        } else if c.kind is Identifier {
            sp_text(s, c.text)
        } else {
            s
        };
        sp_prim_kids(ns, i + 1, s2)
    }
}

/// Children of a type alias.
pub open spec fn sp_talias_kids(ns: Seq<NodeV>, i: int, s: StV) -> StV
    decreases ns.len() - i,
{
    if i < 0 || i >= ns.len() {
        s
    } else {
        let c = ns[i];
        let s2 = if c.kind is Identifier {
            sp_text(s, c.text)
        } else if c.kind is IsKw {
            sp_text(s, " is "@)
        } else if c.kind is UnionType {
            sp_text(s, c.text)
        } else {
            s
        };
        sp_talias_kids(ns, i + 1, s2)
    }
}

/// Children of a field.
pub open spec fn sp_field_kids(ns: Seq<NodeV>, i: int, s: StV) -> StV
    decreases ns.len() - i,
{
    if i < 0 || i >= ns.len() {
        s
    } else {
        let c = ns[i];
        let s2 = if c.kind is LetKw || c.kind is VarKw || c.kind is EmbedKw {
            sp_text(sp_text(s, c.text), " "@)
        } else if c.kind is Identifier {
            sp_text(s, c.text)
        } else if c.kind is Colon {
            sp_text(s, ": "@)
        } else if c.kind is EqSign {
            sp_text(s, " = "@)
        } else {
            sp_text(s, c.text)
        };
        sp_field_kids(ns, i + 1, s2)
    }
}

/// Children of a method; a short one-line body stays on the arrow's line.
pub open spec fn sp_method_kids(
    ns: Seq<NodeV>,
    i: int,
    sp: Option<NodeKind>,
    s: StV,
    w: nat,
) -> StV
    decreases ns, ns.len() - i,
{
    if i < 0 || i >= ns.len() {
        s
    } else {
        let c = ns[i];
        let s2 = if c.kind is FunKw {
            sp_text(sp_text(s, c.text), " "@)
        } else if c.kind is Identifier {
            sp_text(s, c.text)
        } else if c.kind is Parameters {
            sp_text(s, c.text)
        } else if c.kind is Colon {
            sp_text(s, ": "@)
        } else if c.kind is BaseType {
            sp_text(s, c.text)
        } else if c.kind is Arrow {
            sp_text(s, " =>"@)
        } else if c.kind is Block {
            let t = trim_spec(c.text);
            if t.len() > 0 && !has_char(t, '\n') && utf8_len(t) < 50 {
                sp_text(sp_text(s, " "@), t)
            } else {
                sp_dec(sp_node(c, Some(NodeKind::Method), sp, sp_inc(sp_nl(s)), w))
            }
        } else {
            s
        };
        sp_method_kids(ns, i + 1, sp, s2, w)
    }
}

/// Children of a constructor or function definition; the body always goes
/// on its own indented lines.
pub open spec fn sp_ctor_kids(
    ns: Seq<NodeV>,
    i: int,
    sk: NodeKind,
    sp: Option<NodeKind>,
    s: StV,
    w: nat,
) -> StV
    decreases ns, ns.len() - i,
{
    if i < 0 || i >= ns.len() {
        s
    } else {
        let c = ns[i];
        let s2 = if c.kind is NewKw || c.kind is FunKw || c.kind is BeKw {
            sp_text(sp_text(s, c.text), " "@)
        } else if c.kind is ValKw || c.kind is RefKw || c.kind is IsoKw || c.kind is TrnKw
            || c.kind is BoxKw || c.kind is TagKw {
            s
        } else if c.kind is Capability {
            sp_text(sp_text(s, c.text), " "@)
        } else if c.kind is Identifier {
            sp_text(s, c.text)
        } else if c.kind is Parameters {
            sp_text(s, c.text)
        } else if c.kind is Colon {
            sp_text(s, ": "@)
        } else if c.kind is Arrow {
            sp_text(s, " =>"@)
        } else if c.kind is Block {
            sp_dec(sp_node(c, Some(sk), sp, sp_inc(sp_nl(s)), w))
        } else {
            sp_text(s, c.text)
        };
        sp_ctor_kids(ns, i + 1, sk, sp, s2, w)
    }
}

/// Children of the condition part of a conditional.
pub open spec fn sp_ifb_kids(ns: Seq<NodeV>, i: int, s: StV) -> StV
    decreases ns.len() - i,
{
    if i < 0 || i >= ns.len() {
        s
    } else {
        let c = ns[i];
        let s2 = if c.kind is IfKw {
            sp_text(s, "if "@)
        } else if c.kind is Block {
            sp_text(sp_text(s, c.text), " "@)
        } else {
            s
        };
        sp_ifb_kids(ns, i + 1, s2)
    }
}

/// Children of the body part of a conditional.
pub open spec fn sp_tb_kids(ns: Seq<NodeV>, i: int, s: StV, w: nat) -> StV
    decreases ns, ns.len() - i,
{
    if i < 0 || i >= ns.len() {
        s
    } else {
        let c = ns[i];
        let s2 = if c.kind is ThenKw {
            sp_nl(sp_text(s, kw_tn()))
        } else if c.kind is Block {
            sp_dec(
                sp_node(c, Some(NodeKind::ThenBlock), Some(NodeKind::IfStatement), sp_inc(s), w),
            )
        } else {
            s
        };
        sp_tb_kids(ns, i + 1, s2, w)
    }
}

/// Children of a conditional statement.
pub open spec fn sp_if_kids(ns: Seq<NodeV>, i: int, s: StV, w: nat) -> StV
    decreases ns, ns.len() - i,
{
    if i < 0 || i >= ns.len() {
        s
    } else {
        let c = ns[i];
        let s2 = if c.kind is IfBlock {
            sp_ifb_kids(c.children, 0, s)
        } else if c.kind is ThenBlock {
            sp_tb_kids(c.children, 0, s, w)
        } else if c.kind is EndKw {
            sp_nl(sp_text(sp_indent(s, w), "end"@))
        } else {
            s
        };
        sp_if_kids(ns, i + 1, s2, w)
    }
}

/// Children of a block whose statements are all simple assignments:
/// everything on one line.
pub open spec fn sp_blk_simple(ns: Seq<NodeV>, i: int, first: bool, s: StV) -> StV
    decreases ns.len() - i,
{
    if i < 0 || i >= ns.len() {
        s
    } else {
        let c = ns[i];
        let s2 = if c.kind is AssignmentExpression {
            sp_text(
                if first {
                    s
                } else {
                    sp_text(s, " "@)
                },
                c.text,
            )
        } else if c.kind is Semicolon {
            sp_text(s, ";"@)
        } else {
            s
        };
        let f2 = if c.kind is AssignmentExpression {
            false
        } else {
            first
        };
        sp_blk_simple(ns, i + 1, f2, s2)
    }
}

/// Children of a call expression.
pub open spec fn sp_call_kids(
    ns: Seq<NodeV>,
    i: int,
    cp: Option<NodeKind>,
    s: StV,
    w: nat,
) -> StV
    decreases ns, ns.len() - i,
{
    if i < 0 || i >= ns.len() {
        s
    } else {
        let c = ns[i];
        let s2 = if c.kind is MemberExpression {
            sp_text(s, c.text)
        } else if c.kind is Identifier {
            sp_text(s, c.text)
        } else if c.kind is Arguments {
            sp_args(c.text, s)
        } else {
            sp_node(c, Some(NodeKind::CallExpression), cp, s, w)
        };
        sp_call_kids(ns, i + 1, cp, s2, w)
    }
}

/// Children of an assignment expression.
pub open spec fn sp_asgn_kids(
    ns: Seq<NodeV>,
    i: int,
    first: bool,
    ap: Option<NodeKind>,
    s: StV,
    w: nat,
) -> StV
    decreases ns, ns.len() - i,
{
    if i < 0 || i >= ns.len() {
        s
    } else {
        let c = ns[i];
        let s2 = if c.kind is VariableDeclaration {
            sp_text(s, c.text)
        } else if c.kind is Identifier {
            sp_text(
                if first {
                    s
                } else {
                    sp_text(s, " "@)
                },
                c.text,
            )
        } else if c.kind is EqSign {
            sp_text(s, " = "@)
        } else if c.kind is Block {
            if c.children.len() == 1 && (c.children[0].kind is Identifier || c.children[0].kind
                is Number || c.children[0].kind is StringLit || c.children[0].kind is Boolean) {
                sp_text(s, c.children[0].text)
            } else {
                sp_kids(
                    c.children,
                    0,
                    Some(NodeKind::Block),
                    Some(NodeKind::AssignmentExpression),
                    s,
                    w,
                )
            }
        } else {
            sp_node(c, Some(NodeKind::AssignmentExpression), ap, s, w)
        };
        sp_asgn_kids(ns, i + 1, false, ap, s2, w)
    }
}

/// The empty starting state of a run.
pub open spec fn init_state() -> StV {
    StV { out: Seq::empty(), indent: 0nat, hc: false }
}

/// `t` with its trailing newlines removed.
pub open spec fn drop_trailing_nl(t: Seq<char>) -> Seq<char>
    decreases t.len(),
{
    if t.len() > 0 && t[t.len() - 1] == '\n' {
        drop_trailing_nl(t.drop_last())
    } else {
        t
    }
}

/// `t` ended by exactly one newline.
pub open spec fn normalize_nl(t: Seq<char>) -> Seq<char> {
    drop_trailing_nl(t).push('\n')
}

/// The full rendering of a tree: the walk from a fresh state, ended by
/// exactly one newline.
pub open spec fn sp_render(n: NodeV, w: nat) -> Seq<char> {
    normalize_nl(sp_node(n, None, None, init_state(), w).out)
}

/// Mirror of `needs_blank` for execution.
fn blank_between(p: NodeKind, k: NodeKind) -> (r: bool)
    ensures
        r == needs_blank(p, k),
{
    if p == NodeKind::BlockComment && !(k == NodeKind::BlockComment) && !(k
        == NodeKind::LineComment) {
        true
    } else if p == NodeKind::PrimitiveDefinition && !(k == NodeKind::PrimitiveDefinition) && !(k
        == NodeKind::LineComment) {
        true
    } else if p == NodeKind::TypeAlias && !(k == NodeKind::TypeAlias) && !(k
        == NodeKind::LineComment) {
        true
    } else if p == NodeKind::TraitDefinition && !(k == NodeKind::TraitDefinition) && !(k
        == NodeKind::LineComment) {
        true
    } else if p == NodeKind::ClassDefinition {
        true
    } else if p == NodeKind::UseStatement && !(k == NodeKind::UseStatement) && !(k
        == NodeKind::LineComment) {
        true
    } else {
        false
    }
}

/// Mirror of `standalone_call` for execution.
fn is_standalone(p: Option<NodeKind>, g: Option<NodeKind>) -> (r: bool)
    ensures
        r == standalone_call(p, g),
{
    match p {
        None => true,
        Some(pk) => match g {
            Some(gk) => pk == NodeKind::Block && !(gk == NodeKind::AssignmentExpression),
            None => false,
        },
    }
}

/// Position of the first child of the given kind, if any.
fn find_kind(children: &Vec<SyntaxNode>, k: NodeKind) -> (r: Option<usize>)
    ensures
        match r {
            Some(j) => j < children@.len() && first_kind_idx(kids_v(children@), 0, k) == Some(
                j as int,
            ),
            None => first_kind_idx(kids_v(children@), 0, k) is None,
        },
{
    proof {
        lemma_kids_v(children@);
    }
    let ghost ns = kids_v(children@);
    let n: usize = children.len();
    let mut i: usize = 0;
    while i < n
        invariant
            0 <= i <= n,
            n == children@.len(),
            ns == kids_v(children@),
            ns.len() == n,
            forall|j: int| 0 <= j < n ==> ns[j] == node_v(children@[j]),
            first_kind_idx(ns, 0, k) == first_kind_idx(ns, i as int, k),
        decreases n - i,
    {
        if children[i].kind == k {
            return Some(i);
        }
        i = i + 1;
    }
    None
}

/// The condition-closing keyword as characters.
fn pat_tn() -> (v: Vec<char>)
    ensures
        v@ == kw_tn(),
{
    let mut v: Vec<char> = Vec::new();
    v.push('t');
    v.push('h');
    v.push('e');
    v.push('n');
    proof {
        assert(v@ =~= kw_tn());
    }
    v
}

/// Render the top-level children, separating declarations by blank lines.
fn format_source_file(
    node: &SyntaxNode,
    p: Option<NodeKind>,
    st: &mut FormatterState,
    opts: &FormatOptions,
)
    ensures
        final(st)@ == sp_src(node@.children, 0, None, p, old(st)@, opts.indent_width as nat),
    decreases node, 1int,
{
    proof {
        lemma_kids_v(node.children@);
    }
    let ghost ns = node@.children;
    let ghost w = opts.indent_width as nat;
    let n: usize = node.children.len();
    let mut prev: Option<NodeKind> = None;
    let mut i: usize = 0;
    while i < n
        invariant
            0 <= i <= n,
            n == node.children@.len(),
            ns == node@.children,
            ns.len() == n,
            forall|j: int| 0 <= j < n ==> ns[j] == node_v(node.children@[j]),
            sp_src(ns, 0, None, p, old(st)@, w) == sp_src(ns, i as int, prev, p, st@, w),
        decreases n - i,
    {
        let c = &node.children[i];
        let blank = match prev {
            Some(pk) => blank_between(pk, c.kind),
            None => false,
        };
        if blank {
            st.write_blank_line();
        }
        format_node(c, Some(NodeKind::SourceFile), p, st, opts);
        prev = Some(c.kind);
        i = i + 1;
    }
}

/// Render a `use` declaration.
fn format_use(node: &SyntaxNode, st: &mut FormatterState, opts: &FormatOptions)
    ensures
        final(st)@ == sp_use(node@, old(st)@, opts.indent_width as nat),
{
    proof {
        lemma_kids_v(node.children@);
    }
    st.write_indent(opts);
    st.write_str("use ");
    match find_kind(&node.children, NodeKind::StringLit) {
        Some(j) => st.write_text(&node.children[j].text),
        None => {},
    }
    st.write_newline();
}

/// Render an actor or class definition.
fn format_actor(
    node: &SyntaxNode,
    p: Option<NodeKind>,
    st: &mut FormatterState,
    opts: &FormatOptions,
)
    ensures
        final(st)@ == sp_actor(node@, p, old(st)@, opts.indent_width as nat),
    decreases node, 1int,
{
    proof {
        lemma_kids_v(node.children@);
    }
    let ghost ns = node@.children;
    let ghost w = opts.indent_width as nat;
    st.write_indent(opts);
    let n: usize = node.children.len();
    let mut i: usize = 0;
    while i < n
        invariant
            0 <= i <= n,
            n == node.children@.len(),
            ns == node@.children,
            ns.len() == n,
            forall|j: int| 0 <= j < n ==> ns[j] == node_v(node.children@[j]),
            sp_actor_kids(ns, 0, node.kind, p, sp_indent(old(st)@, w), w) == sp_actor_kids(
                ns,
                i as int,
                node.kind,
                p,
                st@,
                w,
            ),
        decreases n - i,
    {
        let c = &node.children[i];
        match c.kind {
            NodeKind::ActorKw | NodeKind::ClassKw | NodeKind::Capability => {
                st.write_text(&c.text);
                st.write_str(" ");
            },
            NodeKind::Identifier => st.write_text(&c.text),
            NodeKind::IsKw => st.write_str(" is "),
            NodeKind::BaseType => st.write_text(&c.text),
            NodeKind::Members => {
                st.write_newline();
                st.increase_indent();
                format_node(c, Some(node.kind), p, st, opts);
                st.decrease_indent();
            },
            _ => {},
        }
        i = i + 1;
    }
}

/// Render a trait definition.
fn format_trait(
    node: &SyntaxNode,
    p: Option<NodeKind>,
    st: &mut FormatterState,
    opts: &FormatOptions,
)
    ensures
        final(st)@ == sp_trait(node@, p, old(st)@, opts.indent_width as nat),
    decreases node, 1int,
{
    proof {
        lemma_kids_v(node.children@);
    }
    let ghost ns = node@.children;
    let ghost w = opts.indent_width as nat;
    st.write_indent(opts);
    let n: usize = node.children.len();
    let mut i: usize = 0;
    while i < n
        invariant
            0 <= i <= n,
            n == node.children@.len(),
            ns == node@.children,
            ns.len() == n,
            forall|j: int| 0 <= j < n ==> ns[j] == node_v(node.children@[j]),
            sp_trait_kids(ns, 0, p, sp_indent(old(st)@, w), w) == sp_trait_kids(
                ns,
                i as int,
                p,
                st@,
                w,
            ),
        decreases n - i,
    {
        let c = &node.children[i];
        match c.kind {
            NodeKind::TraitKw | NodeKind::Capability => {
                st.write_text(&c.text);
                st.write_str(" ");
            },
            NodeKind::Identifier => st.write_text(&c.text),
            NodeKind::Members => {
                st.write_newline();
                st.increase_indent();
                format_node(c, Some(NodeKind::TraitDefinition), p, st, opts);
                st.decrease_indent();
            },
            _ => {},
        }
        i = i + 1;
    }
}

/// Render a primitive definition.
fn format_primitive(node: &SyntaxNode, st: &mut FormatterState, opts: &FormatOptions)
    ensures
        final(st)@ == sp_prim(node@, old(st)@, opts.indent_width as nat),
{
    proof {
        lemma_kids_v(node.children@);
    }
    let ghost ns = node@.children;
    let ghost w = opts.indent_width as nat;
    st.write_indent(opts);
    let n: usize = node.children.len();
    let mut i: usize = 0;
    while i < n
        invariant
            0 <= i <= n,
            n == node.children@.len(),
            ns == node@.children,
            ns.len() == n,
            forall|j: int| 0 <= j < n ==> ns[j] == node_v(node.children@[j]),
            sp_prim_kids(ns, 0, sp_indent(old(st)@, w)) == sp_prim_kids(ns, i as int, st@),
        decreases n - i,
    {
        let c = &node.children[i];
        match c.kind {
            NodeKind::PrimitiveKw => {
                st.write_text(&c.text);
                st.write_str(" ");
            },
            NodeKind::Identifier => st.write_text(&c.text),
            _ => {},
        }
        i = i + 1;
    }
    st.write_newline();
}

/// Render a type definition.
fn format_type_definition(node: &SyntaxNode, st: &mut FormatterState, opts: &FormatOptions)
    ensures
        final(st)@ == sp_tdef(node@, old(st)@, opts.indent_width as nat),
{
    proof {
        lemma_kids_v(node.children@);
    }
    st.write_indent(opts);
    st.write_str("type ");
    match find_kind(&node.children, NodeKind::Identifier) {
        Some(j) => st.write_text(&node.children[j].text),
        None => {},
    }
    match find_kind(&node.children, NodeKind::IsKw) {
        Some(j) => {
            st.write_str(" is ");
            let cn: usize = node.children.len();
            proof {
                assert(j < cn);
            }
            if j + 1 < cn {
                st.write_text(&node.children[j + 1].text);
            }
        },
        None => {},
    }
    st.write_newline();
}

/// Render a type alias.
fn format_type_alias(node: &SyntaxNode, st: &mut FormatterState, opts: &FormatOptions)
    ensures
        final(st)@ == sp_talias(node@, old(st)@, opts.indent_width as nat),
{
    proof {
        lemma_kids_v(node.children@);
    }
    let ghost ns = node@.children;
    let ghost w = opts.indent_width as nat;
    st.write_indent(opts);
    st.write_str("type ");
    let n: usize = node.children.len();
    let mut i: usize = 0;
    while i < n
        invariant
            0 <= i <= n,
            n == node.children@.len(),
            ns == node@.children,
            ns.len() == n,
            forall|j: int| 0 <= j < n ==> ns[j] == node_v(node.children@[j]),
            sp_talias_kids(ns, 0, sp_text(sp_indent(old(st)@, w), "type "@)) == sp_talias_kids(
                ns,
                i as int,
                st@,
            ),
        decreases n - i,
    {
        let c = &node.children[i];
        match c.kind {
            NodeKind::Identifier => st.write_text(&c.text),
            NodeKind::IsKw => st.write_str(" is "),
            NodeKind::UnionType => st.write_text(&c.text),
            _ => {},
        }
        i = i + 1;
    }
    st.write_newline();
}

/// Render a field.
fn format_field(node: &SyntaxNode, st: &mut FormatterState, opts: &FormatOptions)
    ensures
        final(st)@ == sp_field(node@, old(st)@, opts.indent_width as nat),
{
    proof {
        lemma_kids_v(node.children@);
    }
    let ghost ns = node@.children;
    let ghost w = opts.indent_width as nat;
    st.write_indent(opts);
    let n: usize = node.children.len();
    let mut i: usize = 0;
    while i < n
        invariant
            0 <= i <= n,
            n == node.children@.len(),
            ns == node@.children,
            ns.len() == n,
            forall|j: int| 0 <= j < n ==> ns[j] == node_v(node.children@[j]),
            sp_field_kids(ns, 0, sp_indent(old(st)@, w)) == sp_field_kids(ns, i as int, st@),
        decreases n - i,
    {
        let c = &node.children[i];
        match c.kind {
            NodeKind::LetKw | NodeKind::VarKw | NodeKind::EmbedKw => {
                st.write_text(&c.text);
                st.write_str(" ");
            },
            NodeKind::Identifier => st.write_text(&c.text),
            NodeKind::Colon => st.write_str(": "),
            NodeKind::EqSign => st.write_str(" = "),
            _ => st.write_text(&c.text),
        }
        i = i + 1;
    }
    st.write_newline();
}

/// Render a method; a short one-line body stays on the arrow's line.
fn format_method(
    node: &SyntaxNode,
    p: Option<NodeKind>,
    st: &mut FormatterState,
    opts: &FormatOptions,
)
    ensures
        final(st)@ == sp_method(node@, p, old(st)@, opts.indent_width as nat),
    decreases node, 1int,
{
    proof {
        lemma_kids_v(node.children@);
    }
    let ghost ns = node@.children;
    let ghost w = opts.indent_width as nat;
    st.write_indent(opts);
    let n: usize = node.children.len();
    let mut i: usize = 0;
    while i < n
        invariant
            0 <= i <= n,
            n == node.children@.len(),
            ns == node@.children,
            ns.len() == n,
            forall|j: int| 0 <= j < n ==> ns[j] == node_v(node.children@[j]),
            sp_method_kids(ns, 0, p, sp_indent(old(st)@, w), w) == sp_method_kids(
                ns,
                i as int,
                p,
                st@,
                w,
            ),
        decreases n - i,
    {
        let c = &node.children[i];
        match c.kind {
            NodeKind::FunKw => {
                st.write_text(&c.text);
                st.write_str(" ");
            },
            NodeKind::Identifier | NodeKind::Parameters | NodeKind::BaseType => st.write_text(
                &c.text,
            ),
            NodeKind::Colon => st.write_str(": "),
            NodeKind::Arrow => st.write_str(" =>"),
            NodeKind::Block => {
                let tv = trim(&c.text);
                if tv.len() > 0 && !contains_char(&tv, '\n') && short_line(&tv) {
                    st.write_str(" ");
                    st.write_text(&tv);
                } else {
                    st.write_newline();
                    st.increase_indent();
                    format_node(c, Some(NodeKind::Method), p, st, opts);
                    st.decrease_indent();
                }
            },
            _ => {},
        }
        i = i + 1;
    }
    st.write_newline();
}

/// Render a constructor or function definition.
fn format_constructor(
    node: &SyntaxNode,
    p: Option<NodeKind>,
    st: &mut FormatterState,
    opts: &FormatOptions,
)
    ensures
        final(st)@ == sp_ctor(node@, p, old(st)@, opts.indent_width as nat),
    decreases node, 1int,
{
    proof {
        lemma_kids_v(node.children@);
    }
    let ghost ns = node@.children;
    let ghost w = opts.indent_width as nat;
    st.write_indent(opts);
    let n: usize = node.children.len();
    let mut i: usize = 0;
    while i < n
        invariant
            0 <= i <= n,
            n == node.children@.len(),
            ns == node@.children,
            ns.len() == n,
            forall|j: int| 0 <= j < n ==> ns[j] == node_v(node.children@[j]),
            sp_ctor_kids(ns, 0, node.kind, p, sp_indent(old(st)@, w), w) == sp_ctor_kids(
                ns,
                i as int,
                node.kind,
                p,
                st@,
                w,
            ),
        decreases n - i,
    {
        let c = &node.children[i];
        match c.kind {
            NodeKind::NewKw | NodeKind::FunKw | NodeKind::BeKw => {
                st.write_text(&c.text);
                st.write_str(" ");
            },
            NodeKind::ValKw | NodeKind::RefKw | NodeKind::IsoKw | NodeKind::TrnKw
            | NodeKind::BoxKw | NodeKind::TagKw => {},
            NodeKind::Capability => {
                st.write_text(&c.text);
                st.write_str(" ");
            },
            NodeKind::Identifier | NodeKind::Parameters => st.write_text(&c.text),
            NodeKind::Colon => st.write_str(": "),
            NodeKind::Arrow => st.write_str(" =>"),
            NodeKind::Block => {
                st.write_newline();
                st.increase_indent();
                format_node(c, Some(node.kind), p, st, opts);
                st.decrease_indent();
            },
            _ => st.write_text(&c.text),
        }
        i = i + 1;
    }
}

/// Render the condition part of a conditional.
fn format_if_block(node: &SyntaxNode, st: &mut FormatterState)
    ensures
        final(st)@ == sp_ifb_kids(node@.children, 0, old(st)@),
{
    proof {
        lemma_kids_v(node.children@);
    }
    let ghost ns = node@.children;
    let n: usize = node.children.len();
    let mut i: usize = 0;
    while i < n
        invariant
            0 <= i <= n,
            n == node.children@.len(),
            ns == node@.children,
            ns.len() == n,
            forall|j: int| 0 <= j < n ==> ns[j] == node_v(node.children@[j]),
            sp_ifb_kids(ns, 0, old(st)@) == sp_ifb_kids(ns, i as int, st@),
        decreases n - i,
    {
        let c = &node.children[i];
        match c.kind {
            NodeKind::IfKw => st.write_str("if "),
            NodeKind::Block => {
                st.write_text(&c.text);
                st.write_str(" ");
            },
            _ => {},
        }
        i = i + 1;
    }
}

/// Render the body part of a conditional.
fn format_then_block(node: &SyntaxNode, st: &mut FormatterState, opts: &FormatOptions)
    ensures
        final(st)@ == sp_tb_kids(node@.children, 0, old(st)@, opts.indent_width as nat),
    decreases node, 1int,
{
    proof {
        lemma_kids_v(node.children@);
    }
    let ghost ns = node@.children;
    let ghost w = opts.indent_width as nat;
    let n: usize = node.children.len();
    let mut i: usize = 0;
    while i < n
        invariant
            0 <= i <= n,
            n == node.children@.len(),
            ns == node@.children,
            ns.len() == n,
            forall|j: int| 0 <= j < n ==> ns[j] == node_v(node.children@[j]),
            sp_tb_kids(ns, 0, old(st)@, w) == sp_tb_kids(ns, i as int, st@, w),
        decreases n - i,
    {
        let c = &node.children[i];
        match c.kind {
            NodeKind::ThenKw => {
                let kw = pat_tn();
                st.write_text(&kw);
                st.write_newline();
            },
            NodeKind::Block => {
                st.increase_indent();
                format_node(
                    c,
                    Some(NodeKind::ThenBlock),
                    Some(NodeKind::IfStatement),
                    st,
                    opts,
                );
                st.decrease_indent();
            },
            _ => {},
        }
        i = i + 1;
    }
}

/// Render a conditional statement.
fn format_if_statement(node: &SyntaxNode, st: &mut FormatterState, opts: &FormatOptions)
    ensures
        final(st)@ == sp_ifstmt(node@, old(st)@, opts.indent_width as nat),
    decreases node, 1int,
{
    proof {
        lemma_kids_v(node.children@);
    }
    let ghost ns = node@.children;
    let ghost w = opts.indent_width as nat;
    st.write_indent(opts);
    let n: usize = node.children.len();
    let mut i: usize = 0;
    while i < n
        invariant
            0 <= i <= n,
            n == node.children@.len(),
            ns == node@.children,
            ns.len() == n,
            forall|j: int| 0 <= j < n ==> ns[j] == node_v(node.children@[j]),
            sp_if_kids(ns, 0, sp_indent(old(st)@, w), w) == sp_if_kids(ns, i as int, st@, w),
        decreases n - i,
    {
        let c = &node.children[i];
        match c.kind {
            NodeKind::IfBlock => format_if_block(c, st),
            NodeKind::ThenBlock => format_then_block(c, st, opts),
            NodeKind::EndKw => {
                st.write_indent(opts);
                st.write_str("end");
                st.write_newline();
            },
            _ => {},
        }
        i = i + 1;
    }
}

/// Render a block.
fn format_block(
    node: &SyntaxNode,
    p: Option<NodeKind>,
    st: &mut FormatterState,
    opts: &FormatOptions,
)
    ensures
        final(st)@ == sp_block(node@, p, old(st)@, opts.indent_width as nat),
    decreases node, 1int,
{
    proof {
        lemma_kids_v(node.children@);
    }
    let ghost ns = node@.children;
    let ghost w = opts.indent_width as nat;
    let n: usize = node.children.len();
    let mut simple: bool = true;
    let mut i: usize = 0;
    while i < n
        invariant
            0 <= i <= n,
            n == node.children@.len(),
            ns == node@.children,
            ns.len() == n,
            forall|j: int| 0 <= j < n ==> ns[j] == node_v(node.children@[j]),
            simple ==> forall|j: int|
                0 <= j < i ==> (ns[j].kind is AssignmentExpression || ns[j].kind is Semicolon),
            !simple ==> !all_simple_assignments(ns),
        decreases n - i,
    {
        let k = node.children[i].kind;
        if !(k == NodeKind::AssignmentExpression || k == NodeKind::Semicolon) {
            proof {
                assert(!(ns[i as int].kind is AssignmentExpression || ns[i as int].kind
                    is Semicolon));
            }
            simple = false;
        }
        i = i + 1;
    }
    if simple && n > 2 {
        proof {
            assert(all_simple_assignments(ns));
        }
        st.write_indent(opts);
        let mut first: bool = true;
        let mut q: usize = 0;
        while q < n
            invariant
                0 <= q <= n,
                n == node.children@.len(),
                ns == node@.children,
                ns.len() == n,
                forall|j: int| 0 <= j < n ==> ns[j] == node_v(node.children@[j]),
                sp_blk_simple(ns, 0, true, sp_indent(old(st)@, w)) == sp_blk_simple(
                    ns,
                    q as int,
                    first,
                    st@,
                ),
            decreases n - q,
        {
            let c = &node.children[q];
            match c.kind {
                NodeKind::AssignmentExpression => {
                    if !first {
                        st.write_str(" ");
                    }
                    st.write_text(&c.text);
                    first = false;
                },
                NodeKind::Semicolon => st.write_str(";"),
                _ => {},
            }
            q = q + 1;
        }
        st.write_newline();
    } else {
        proof {
            assert(!(all_simple_assignments(ns) && ns.len() > 2));
        }
        format_children(&node.children, Some(node.kind), p, st, opts);
    }
}

/// Render an argument list from its raw text: one line, `, ` separated,
/// with empty arguments dropped.
fn format_arguments(t: &Vec<char>, st: &mut FormatterState)
    ensures
        final(st)@ == sp_args(t@, old(st)@),
{
    let n: usize = t.len();
    let a: usize = if n > 0 && t[0] == '(' {
        1
    } else {
        0
    };
    let b: usize = if n > a && t[n - 1] == ')' {
        n - 1
    } else {
        n
    };
    let inner = sub_vec(t, a, b);
    proof {
        assert(inner@ =~= strip_parens(t@));
    }
    st.write_str("(");
    let ghost s_begin = st@;
    let m: usize = inner.len();
    let mut first: bool = true;
    let mut i: usize = 0;
    let mut done: bool = false;
    while !done
        invariant
            0 <= i <= m,
            m == inner@.len(),
            !done ==> sp_args_rest(inner@, 0, true, s_begin) == sp_args_rest(
                inner@,
                i as int,
                first,
                st@,
            ),
            done ==> sp_args_rest(inner@, 0, true, s_begin) == st@,
        decreases
                (if done {
                    0int
                } else {
                    m + 2 - i
                }),
    {
        let j: usize = match find_char_from(&inner, ',', i) {
            Some(j) => {
                proof {
                    lemma_find_char_bounds(inner@, ',', i as int);
                }
                j
            },
            None => m,
        };
        proof {
            assert(comma_or_end(inner@, i as int) == j as int);
        }
        let piece = trim(&sub_vec(&inner, i, j));
        if piece.len() > 0 {
            if !first {
                st.write_str(", ");
            }
            st.write_text(&piece);
            first = false;
        }
        if j == m {
            done = true;
        } else {
            i = j + 1;
        }
    }
    st.write_str(")");
}

/// Render a call expression.
fn format_call(
    node: &SyntaxNode,
    p: Option<NodeKind>,
    g: Option<NodeKind>,
    st: &mut FormatterState,
    opts: &FormatOptions,
)
    ensures
        final(st)@ == sp_call(node@, p, g, old(st)@, opts.indent_width as nat),
    decreases node, 1int,
{
    proof {
        lemma_kids_v(node.children@);
    }
    let ghost ns = node@.children;
    let ghost w = opts.indent_width as nat;
    let stand = is_standalone(p, g);
    if stand {
        st.write_indent(opts);
    }
    let ghost s0 = st@;
    let n: usize = node.children.len();
    let mut i: usize = 0;
    while i < n
        invariant
            0 <= i <= n,
            n == node.children@.len(),
            ns == node@.children,
            ns.len() == n,
            forall|j: int| 0 <= j < n ==> ns[j] == node_v(node.children@[j]),
            sp_call_kids(ns, 0, p, s0, w) == sp_call_kids(ns, i as int, p, st@, w),
        decreases n - i,
    {
        let c = &node.children[i];
        match c.kind {
            NodeKind::MemberExpression | NodeKind::Identifier => st.write_text(&c.text),
            NodeKind::Arguments => format_arguments(&c.text, st),
            _ => format_node(c, Some(NodeKind::CallExpression), p, st, opts),
        }
        i = i + 1;
    }
    if stand {
        st.write_newline();
    }
}

/// Render an assignment expression.
fn format_assignment_expression(
    node: &SyntaxNode,
    p: Option<NodeKind>,
    st: &mut FormatterState,
    opts: &FormatOptions,
)
    ensures
        final(st)@ == sp_asgn(node@, p, old(st)@, opts.indent_width as nat),
    decreases node, 1int,
{
    proof {
        lemma_kids_v(node.children@);
    }
    let ghost ns = node@.children;
    let ghost w = opts.indent_width as nat;
    st.write_indent(opts);
    let n: usize = node.children.len();
    let mut first: bool = true;
    let mut i: usize = 0;
    while i < n
        invariant
            0 <= i <= n,
            n == node.children@.len(),
            ns == node@.children,
            ns.len() == n,
            forall|j: int| 0 <= j < n ==> ns[j] == node_v(node.children@[j]),
            sp_asgn_kids(ns, 0, true, p, sp_indent(old(st)@, w), w) == sp_asgn_kids(
                ns,
                i as int,
                first,
                p,
                st@,
                w,
            ),
        decreases n - i,
    {
        let c = &node.children[i];
        match c.kind {
            NodeKind::VariableDeclaration => {
                st.write_text(&c.text);
                first = false;
            },
            NodeKind::Identifier => {
                if !first {
                    st.write_str(" ");
                }
                st.write_text(&c.text);
                first = false;
            },
            NodeKind::EqSign => {
                st.write_str(" = ");
                first = false;
            },
            NodeKind::Block => {
                proof {
                    lemma_kids_v(c.children@);
                }
                let simple_head = c.children.len() == 1 && match c.children[0].kind {
                    NodeKind::Identifier | NodeKind::Number | NodeKind::StringLit
                    | NodeKind::Boolean => true,
                    _ => false,
                };
                if simple_head {
                    st.write_text(&c.children[0].text);
                } else {
                    format_children(
                        &c.children,
                        Some(NodeKind::Block),
                        Some(NodeKind::AssignmentExpression),
                        st,
                        opts,
                    );
                }
                first = false;
            },
            _ => {
                format_node(c, Some(NodeKind::AssignmentExpression), p, st, opts);
                first = false;
            },
        }
        i = i + 1;
    }
    st.write_newline();
}

/// Render a region the parser could not structure.
fn format_error(node: &SyntaxNode, st: &mut FormatterState, opts: &FormatOptions)
    ensures
        final(st)@ == sp_error(node.text@, old(st)@, opts.indent_width as nat),
{
    let t = &node.text;
    let n: usize = t.len();
    let opens_if = n >= 3 && t[0] == 'i' && t[1] == 'f' && t[2] == ' ';
    let kw = pat_tn();
    let found: Option<usize> = if opens_if {
        find_pattern(t, &kw)
    } else {
        None
    };
    if opens_if && found.is_some() {
        let j: usize = match found {
            Some(j) => j,
            None => 0,
        };
        proof {
            lemma_find_sub_bounds(t@, kw_tn(), 0);
        }
        st.write_indent(opts);
        let pre = sub_vec(t, 0, j);
        let post = sub_vec(t, j + 4, n);
        let mut piece = trim(&pre);
        piece.push(' ');
        piece.push('t');
        piece.push('h');
        piece.push('e');
        piece.push('n');
        proof {
            assert(piece@ =~= trim_spec(pre@) + seq![' ', 't', 'h', 'e', 'n']);
        }
        st.write_text(&piece);
        st.write_newline();
        st.increase_indent();
        let tp = trim(&post);
        if tp.len() > 0 {
            st.write_indent(opts);
            st.write_text(&tp);
        }
    } else {
        proof {
            if starts_if(t@) {
                assert(find_sub(t@, kw_tn(), 0) is None);
            }
        }
        let tr = trim(t);
        let is_bare_end = eq_str(&tr, "end");
        if is_bare_end || ends_with_end(t) {
            if !is_bare_end {
                let stripped = strip_end_runs(t);
                let content = trim(&stripped);
                if content.len() > 0 {
                    st.write_text(&content);
                    st.write_newline();
                }
            }
            st.decrease_indent();
            st.write_indent(opts);
            st.write_str("end");
            st.write_newline();
        } else {
            st.write_indent(opts);
            st.write_text(t);
            st.write_newline();
        }
    }
}

/// Render every child in turn, handing each the given parent and
/// grandparent kinds.
fn format_children(
    children: &Vec<SyntaxNode>,
    p: Option<NodeKind>,
    g: Option<NodeKind>,
    st: &mut FormatterState,
    opts: &FormatOptions,
)
    ensures
        final(st)@ == sp_kids(kids_v(children@), 0, p, g, old(st)@, opts.indent_width as nat),
    decreases children@, 1int,
{
    proof {
        lemma_kids_v(children@);
    }
    let ghost ns = kids_v(children@);
    let ghost w = opts.indent_width as nat;
    let n: usize = children.len();
    let mut i: usize = 0;
    while i < n
        invariant
            0 <= i <= n,
            n == children@.len(),
            ns == kids_v(children@),
            ns.len() == n,
            forall|j: int| 0 <= j < n ==> ns[j] == node_v(children@[j]),
            sp_kids(ns, 0, p, g, old(st)@, w) == sp_kids(ns, i as int, p, g, st@, w),
        decreases n - i,
    {
        format_node(&children[i], p, g, st, opts);
        i = i + 1;
    }
}

/// Render one node into the state, given the kinds of its parent and
/// grandparent; total over every tree shape.
pub fn format_node(
    node: &SyntaxNode,
    p: Option<NodeKind>,
    g: Option<NodeKind>,
    st: &mut FormatterState,
    opts: &FormatOptions,
)
    ensures
        final(st)@ == sp_node(node@, p, g, old(st)@, opts.indent_width as nat),
    decreases node, 2int,
{
    match node.kind {
        NodeKind::SourceFile => format_source_file(node, p, st, opts),
        NodeKind::BlockComment | NodeKind::LineComment => {
            st.write_indent(opts);
            st.write_text(&node.text);
            st.write_newline();
        },
        NodeKind::UseStatement => format_use(node, st, opts),
        NodeKind::ActorDefinition | NodeKind::ClassDefinition => format_actor(node, p, st, opts),
        NodeKind::TraitDefinition => format_trait(node, p, st, opts),
        NodeKind::PrimitiveDefinition => format_primitive(node, st, opts),
        NodeKind::TypeDefinition => format_type_definition(node, st, opts),
        NodeKind::TypeAlias => format_type_alias(node, st, opts),
        NodeKind::Members => format_children(&node.children, Some(node.kind), p, st, opts),
        NodeKind::Field | NodeKind::FieldDefinition => format_field(node, st, opts),
        NodeKind::Method => format_method(node, p, st, opts),
        NodeKind::Constructor | NodeKind::FunctionDefinition => format_constructor(
            node,
            p,
            st,
            opts,
        ),
        NodeKind::IfStatement => format_if_statement(node, st, opts),
        NodeKind::Block => format_block(node, p, st, opts),
        NodeKind::CallExpression => format_call(node, p, g, st, opts),
        NodeKind::AssignmentExpression => format_assignment_expression(node, p, st, opts),
        NodeKind::VariableDeclaration => {},
        NodeKind::Assignment => {
            st.write_indent(opts);
            st.write_text(&node.text);
            st.write_newline();
        },
        NodeKind::Error => format_error(node, st, opts),
        NodeKind::StringLit => st.write_text(&node.text),
        NodeKind::ActorKw | NodeKind::ClassKw | NodeKind::TraitKw | NodeKind::PrimitiveKw
        | NodeKind::NewKw | NodeKind::FunKw | NodeKind::BeKw | NodeKind::LetKw | NodeKind::VarKw
        | NodeKind::EmbedKw | NodeKind::Identifier | NodeKind::Parameters | NodeKind::Colon
        | NodeKind::EqSign | NodeKind::Arrow | NodeKind::ValKw | NodeKind::RefKw
        | NodeKind::IsoKw | NodeKind::TrnKw | NodeKind::BoxKw | NodeKind::TagKw
        | NodeKind::LParen | NodeKind::RParen | NodeKind::IfKw | NodeKind::ThenKw
        | NodeKind::EndKw | NodeKind::IsKw | NodeKind::Capability => {},
        NodeKind::BaseType | NodeKind::UnionType | NodeKind::Number | NodeKind::Boolean
        | NodeKind::Semicolon | NodeKind::Arguments | NodeKind::MemberExpression
        | NodeKind::IfBlock | NodeKind::ThenBlock | NodeKind::Other => format_children(
            &node.children,
            Some(node.kind),
            p,
            st,
            opts,
        ),
    }
}

/// Trailing newlines never survive `drop_trailing_nl`.
proof fn lemma_drop_trailing_no_nl(t: Seq<char>)
    ensures
        drop_trailing_nl(t).len() > 0 ==> drop_trailing_nl(t)[drop_trailing_nl(t).len() - 1]
            != '\n',
    decreases t.len(),
{
    if t.len() > 0 && t[t.len() - 1] == '\n' {
        lemma_drop_trailing_no_nl(t.drop_last());
    }
}

/// Law: normalized output ends with exactly one newline — the last
/// character is a newline and the one before it, if any, is not.
pub proof fn lemma_normalized_single_newline(t: Seq<char>)
    ensures
        normalize_nl(t).len() >= 1,
        normalize_nl(t)[normalize_nl(t).len() - 1] == '\n',
        normalize_nl(t).len() >= 2 ==> normalize_nl(t)[normalize_nl(t).len() - 2] != '\n',
{
    lemma_drop_trailing_no_nl(t);
}

/// Law: one tree and one indent width have exactly one rendering; two
/// formatting runs over the same tree give byte-identical text.
pub proof fn lemma_format_deterministic(n: NodeV, w: nat, a: Seq<char>, b: Seq<char>)
    requires
        a == sp_render(n, w),
        b == sp_render(n, w),
    ensures
        a == b,
{
}

/// Format a whole tree: walk it from a fresh state and end the output
/// with exactly one newline.  Total over every tree, and deterministic:
/// the result is pinned to `sp_render` of the tree.
pub fn format_tree(root: &SyntaxNode, opts: &FormatOptions) -> (out: String)
    ensures
        out@ == sp_render(root@, opts.indent_width as nat),
        out@.len() >= 1,
        out@[out@.len() - 1] == '\n',
        out@.len() >= 2 ==> out@[out@.len() - 2] != '\n',
{
    let mut st = FormatterState::new();
    format_node(root, None, None, &mut st, opts);
    let mut m: usize = st.output.len();
    proof {
        assert(st.output@.take(m as int) =~= st.output@);
    }
    while m > 0 && st.output[m - 1] == '\n'
        invariant
            m <= st.output@.len(),
            drop_trailing_nl(st.output@) == drop_trailing_nl(st.output@.take(m as int)),
        decreases m,
    {
        proof {
            assert(st.output@.take(m as int).drop_last() =~= st.output@.take(m as int - 1));
        }
        m = m - 1;
    }
    proof {
        assert(drop_trailing_nl(st.output@.take(m as int)) == st.output@.take(m as int));
    }
    let mut v = sub_vec(&st.output, 0, m);
    proof {
        assert(v@ =~= st.output@.take(m as int));
    }
    v.push('\n');
    proof {
        lemma_normalized_single_newline(st.output@);
    }
    string_of_chars(&v)
}


/// Format Pony source code.  The result is `Err` exactly when the parser
/// yields no tree; otherwise it is the rendering of the parsed tree,
/// ending in exactly one newline.
pub fn format_source(input: &str, opts: &FormatOptions) -> (r: Result<
    String,
    crate::parser::ParseError,
>)
    ensures
        match r {
            Ok(out) => crate::parser::spec_parse(input@) matches Some(nv) && out@ == sp_render(
                nv,
                opts.indent_width as nat,
            ),
            Err(_) => crate::parser::spec_parse(input@) is None,
        },
{
    match crate::parser::parse(input) {
        Some(t) => Ok(format_tree(&t, opts)),
        None => Err(crate::parser::ParseError::Unparseable),
    }
}


/// The argument pieces of a text: each comma-separated piece trimmed,
/// the empty ones dropped.
pub open spec fn pieces_from(t: Seq<char>, i: int) -> Seq<Seq<char>>
    decreases t.len() - i,
{
    if i < 0 || i > t.len() {
        Seq::empty()
    } else {
        let j = comma_or_end(t, i);
        let piece = trim_spec(t.subrange(i, j));
        let rest = if j >= t.len() {
            Seq::empty()
        } else {
            pieces_from(t, j + 1)
        };
        if piece.len() > 0 {
            seq![piece] + rest
        } else {
            rest
        }
    }
}

/// The arguments an argument-list text carries, in order.
pub open spec fn args_list(t: Seq<char>) -> Seq<Seq<char>> {
    pieces_from(strip_parens(t), 0)
}

/// The pieces joined with `, ` between them (`first` says whether the
/// head goes without a separator).
pub open spec fn join_pieces(ps: Seq<Seq<char>>, first: bool) -> Seq<char>
    decreases ps.len(),
{
    if ps.len() == 0 {
        Seq::empty()
    } else {
        (if first {
            Seq::<char>::empty()
        } else {
            ", "@
        }) + ps[0] + join_pieces(ps.drop_first(), false)
    }
}

proof fn lemma_args_rest_join(t: Seq<char>, i: int, first: bool, s: StV)
    requires
        0 <= i <= t.len(),
    ensures
        sp_args_rest(t, i, first, s).out == s.out + join_pieces(pieces_from(t, i), first),
        sp_args_rest(t, i, first, s).indent == s.indent,
        sp_args_rest(t, i, first, s).hc == if pieces_from(t, i).len() > 0 {
            true
        } else {
            s.hc
        },
    decreases t.len() - i,
{
    let j = comma_or_end(t, i);
    let piece = trim_spec(t.subrange(i, j));
    let sep = if first {
        Seq::<char>::empty()
    } else {
        ", "@
    };
    let s2 = if piece.len() > 0 {
        sp_text(
            if first {
                s
            } else {
                sp_text(s, ", "@)
            },
            piece,
        )
    } else {
        s
    };
    let f2 = if piece.len() > 0 {
        false
    } else {
        first
    };
    if j >= t.len() {
        if piece.len() > 0 {
            assert(seq![piece].drop_first() =~= Seq::<Seq<char>>::empty());
            assert(join_pieces(Seq::<Seq<char>>::empty(), false) == Seq::<char>::empty());
            assert(seq![piece][0] == piece);
            assert(join_pieces(seq![piece], first) == sep + piece + Seq::<char>::empty());
            assert(sep + piece + Seq::<char>::empty() =~= sep + piece);
            assert(s2.out =~= s.out + (sep + piece));
        } else {
            assert(s.out + join_pieces(pieces_from(t, i), first) =~= s.out);
        }
    } else {
        lemma_args_rest_join(t, j + 1, f2, s2);
        let rest = pieces_from(t, j + 1);
        if piece.len() > 0 {
            assert(pieces_from(t, i) =~= seq![piece] + rest);
            assert((seq![piece] + rest).drop_first() =~= rest);
            assert(s2.out =~= s.out + (sep + piece));
            assert((s.out + (sep + piece)) + join_pieces(rest, false) =~= s.out + (sep + piece
                + join_pieces(rest, false)));
            assert(join_pieces(seq![piece] + rest, first) == sep + (seq![piece] + rest)[0]
                + join_pieces((seq![piece] + rest).drop_first(), false));
            assert(sep + (seq![piece] + rest)[0] + join_pieces(rest, false) =~= sep + piece
                + join_pieces(rest, false));
        } else {
            assert(pieces_from(t, i) == rest);
        }
    }
}

proof fn lemma_pieces_props(t: Seq<char>, i: int)
    requires
        0 <= i <= t.len(),
    ensures
        forall|q: int|
            0 <= q < pieces_from(t, i).len() ==> (#[trigger] pieces_from(t, i)[q]).len() > 0
                && !is_ws(pieces_from(t, i)[q][0]) && !is_ws(
                pieces_from(t, i)[q][pieces_from(t, i)[q].len() - 1],
            ),
    decreases t.len() - i,
{
    let j = comma_or_end(t, i);
    let piece = trim_spec(t.subrange(i, j));
    let ps = pieces_from(t, i);
    lemma_trim_no_edge_ws(t.subrange(i, j));
    if j >= t.len() {
        if piece.len() > 0 {
            assert(ps =~= seq![piece]);
            assert(ps[0] == piece);
        }
    } else {
        lemma_pieces_props(t, j + 1);
        let rest = pieces_from(t, j + 1);
        if piece.len() > 0 {
            assert(ps == seq![piece] + rest);
            assert forall|q: int| 0 <= q < ps.len() implies (#[trigger] ps[q]).len() > 0 && !is_ws(
                ps[q][0],
            ) && !is_ws(ps[q][ps[q].len() - 1]) by {
                if q == 0 {
                    assert(ps[q] == piece);
                } else {
                    assert(ps[q] == rest[q - 1]);
                }
            }
        }
    }
}

proof fn lemma_cat_no_char(a: Seq<char>, b: Seq<char>, c: char)
    requires
        !has_char(a, c),
        !has_char(b, c),
    ensures
        !has_char(a + b, c),
{
    assert forall|j: int| 0 <= j < (a + b).len() implies (a + b)[j] != c by {
        if j < a.len() {
            assert((a + b)[j] == a[j]);
        } else {
            assert((a + b)[j] == b[j - a.len()]);
        }
    }
}

proof fn lemma_join_no_nl(ps: Seq<Seq<char>>, first: bool)
    requires
        forall|q: int| 0 <= q < ps.len() ==> !has_char(#[trigger] ps[q], '\n'),
    ensures
        !has_char(join_pieces(ps, first), '\n'),
    decreases ps.len(),
{
    if ps.len() > 0 {
        let sep = if first {
            Seq::<char>::empty()
        } else {
            ", "@
        };
        reveal_strlit(", ");
        assert(!has_char(sep, '\n'));
        assert forall|q: int| 0 <= q < ps.drop_first().len() implies !has_char(
            #[trigger] ps.drop_first()[q],
            '\n',
        ) by {
            assert(ps.drop_first()[q] == ps[q + 1]);
        }
        lemma_join_no_nl(ps.drop_first(), false);
        lemma_cat_no_char(sep, ps[0], '\n');
        lemma_cat_no_char(sep + ps[0], join_pieces(ps.drop_first(), false), '\n');
    }
}

/// Law: an argument list renders as an opening parenthesis, the
/// non-empty trimmed arguments joined by `, `, and a closing
/// parenthesis, whatever layout the source had; every rendered argument
/// is non-empty and carries no whitespace at either edge, and the
/// surrounding indent level is untouched.  Where no single argument
/// itself holds a newline, the whole rendered list is one line.
pub proof fn lemma_argument_flattening(t: Seq<char>, s: StV)
    ensures
        sp_args(t, s).out == s.out + seq!['('] + join_pieces(args_list(t), true) + seq![')'],
        sp_args(t, s).indent == s.indent,
        sp_args(t, s).hc,
        forall|q: int|
            0 <= q < args_list(t).len() ==> (#[trigger] args_list(t)[q]).len() > 0 && !is_ws(
                args_list(t)[q][0],
            ) && !is_ws(args_list(t)[q][args_list(t)[q].len() - 1]),
        (forall|q: int| 0 <= q < args_list(t).len() ==> !has_char(#[trigger] args_list(t)[q], '\n'))
            ==> !has_char(seq!['('] + join_pieces(args_list(t), true) + seq![')'], '\n'),
{
    let inner = strip_parens(t);
    let s1 = sp_text(s, "("@);
    lemma_args_rest_join(inner, 0, true, s1);
    lemma_pieces_props(inner, 0);
    if forall|q: int| 0 <= q < args_list(t).len() ==> !has_char(#[trigger] args_list(t)[q], '\n') {
        lemma_join_no_nl(args_list(t), true);
        assert(!has_char(seq!['('], '\n'));
        assert(!has_char(seq![')'], '\n'));
        lemma_cat_no_char(seq!['('], join_pieces(args_list(t), true), '\n');
        lemma_cat_no_char(seq!['('] + join_pieces(args_list(t), true), seq![')'], '\n');
    }
    reveal_strlit("(");
    reveal_strlit(")");
    assert(s1.out =~= s.out + seq!['(']);
    assert((s.out + seq!['(']) + join_pieces(args_list(t), true) + ")"@ =~= s.out + seq!['(']
        + join_pieces(args_list(t), true) + seq![')']);
}

} // verus!\n