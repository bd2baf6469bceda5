//! The syntax tree the formatter walks: a node has a kind, the source
//! text it spans, and its children in source order.  A raw tree carries
//! the grammar's kind names as text; classification turns each name into
//! the closed [`NodeKind`] vocabulary the formatting rules dispatch on.

use crate::text::eq_str;
use vstd::prelude::*;

verus! {

/// The node kinds the formatting rules recognise, plus a catch-all.
#[derive(Clone, Copy, Debug, PartialEq, Eq, Structural)]
pub enum NodeKind {
    /// Root of a parsed file.
    SourceFile,
    /// A `/* ... */` comment.
    BlockComment,
    /// A `// ...` comment.
    LineComment,
    /// A `use` declaration.
    UseStatement,
    /// An actor definition.
    ActorDefinition,
    /// A class definition.
    ClassDefinition,
    /// A trait definition.
    TraitDefinition,
    /// A primitive definition.
    PrimitiveDefinition,
    /// A type definition.
    TypeDefinition,
    /// A type alias.
    TypeAlias,
    /// The member list of a type body.
    Members,
    /// A field of a type.
    Field,
    /// A field with inline definition.
    FieldDefinition,
    /// A method.
    Method,
    /// A constructor.
    Constructor,
    /// A free-standing function definition.
    FunctionDefinition,
    /// A conditional statement.
    IfStatement,
    /// The condition part of a conditional.
    IfBlock,
    /// The body part of a conditional.
    ThenBlock,
    /// A block of statements or expressions.
    Block,
    /// A call expression.
    CallExpression,
    /// An assignment expression.
    AssignmentExpression,
    /// A variable declaration.
    VariableDeclaration,
    /// A bare assignment.
    Assignment,
    /// A region the parser could not structure.
    Error,
    /// A string literal.
    StringLit,
    /// An argument list.
    Arguments,
    /// A member access expression.
    MemberExpression,
    /// A numeric literal.
    Number,
    /// A boolean literal.
    Boolean,
    /// The `actor` keyword.
    ActorKw,
    /// The `class` keyword.
    ClassKw,
    /// The `trait` keyword.
    TraitKw,
    /// The `primitive` keyword.
    PrimitiveKw,
    /// The `new` keyword.
    NewKw,
    /// The `fun` keyword.
    FunKw,
    /// The `be` keyword.
    BeKw,
    /// The `let` keyword.
    LetKw,
    /// The `var` keyword.
    VarKw,
    /// The `embed` keyword.
    EmbedKw,
    /// An identifier.
    Identifier,
    /// A parameter list.
    Parameters,
    /// The `:` token.
    Colon,
    /// The `;` token.
    Semicolon,
    /// A base type annotation.
    BaseType,
    /// A union type annotation.
    UnionType,
    /// The `=` token.
    EqSign,
    /// The `=>` token.
    Arrow,
    /// The `val` capability.
    ValKw,
    /// The `ref` capability.
    RefKw,
    /// The `iso` capability.
    IsoKw,
    /// The `trn` capability.
    TrnKw,
    /// The `box` capability.
    BoxKw,
    /// The `tag` capability.
    TagKw,
    /// The `(` token.
    LParen,
    /// The `)` token.
    RParen,
    /// The `if` keyword.
    IfKw,
    /// The keyword that closes a condition and opens its body.
    ThenKw,
    /// The `end` keyword.
    EndKw,
    /// The `is` keyword.
    IsKw,
    /// A capability annotation.
    Capability,
    /// Any kind the rules do not treat specially.
    Other,
}

/// A classified syntax tree node.
pub struct SyntaxNode {
    /// What grammatical construct the node represents.
    pub kind: NodeKind,
    /// The source text the node spans.
    pub text: Vec<char>,
    /// The node's children, in source order; empty for tokens.
    pub children: Vec<SyntaxNode>,
}

/// Mathematical view of a classified node.
pub ghost struct NodeV {
    /// What grammatical construct the node represents.
    pub kind: NodeKind,
    /// The source text the node spans.
    pub text: Seq<char>,
    /// The node's children, in source order.
    pub children: Seq<NodeV>,
}

/// View of one node.
pub open spec fn node_v(n: SyntaxNode) -> NodeV
    decreases n,
{
    NodeV { kind: n.kind, text: n.text@, children: kids_v(n.children@) }
}

/// Views of a sequence of nodes.
pub open spec fn kids_v(s: Seq<SyntaxNode>) -> Seq<NodeV>
    decreases s,
{
    if s.len() == 0 {
        Seq::empty()
    } else {
        kids_v(s.drop_last()).push(node_v(s.last()))
    }
}

impl View for SyntaxNode {
    type V = NodeV;

    open spec fn view(&self) -> NodeV {
        node_v(*self)
    }
}

/// The view of a node sequence is the sequence of the views.
pub proof fn lemma_kids_v(s: Seq<SyntaxNode>)
    ensures
        kids_v(s).len() == s.len(),
        forall|i: int| 0 <= i < s.len() ==> kids_v(s)[i] == node_v(s[i]),
    decreases s.len(),
{
    if s.len() > 0 {
        lemma_kids_v(s.drop_last());
    }
}

/// A parsed node before classification: the grammar's kind name as text.
pub struct RawNode {
    /// The grammar's name for the node's kind.
    pub kind: Vec<char>,
    /// The source text the node spans.
    pub text: Vec<char>,
    /// The node's children, in source order.
    pub children: Vec<RawNode>,
}

/// The kind a grammar kind name classifies to.
pub open spec fn spec_classify(k: Seq<char>) -> NodeKind {
    if k == "source_file"@ {
        NodeKind::SourceFile
    } else if k == "block_comment"@ {
        NodeKind::BlockComment
    } else if k == "line_comment"@ {
        NodeKind::LineComment
    } else if k == "use_statement"@ {
        NodeKind::UseStatement
    } else if k == "actor_definition"@ {
        NodeKind::ActorDefinition
    } else if k == "class_definition"@ {
        NodeKind::ClassDefinition
    } else if k == "trait_definition"@ {
        NodeKind::TraitDefinition
    } else if k == "primitive_definition"@ {
        NodeKind::PrimitiveDefinition
    } else if k == "type_definition"@ {
        NodeKind::TypeDefinition
    } else if k == "type_alias"@ {
        NodeKind::TypeAlias
    } else if k == "members"@ {
        NodeKind::Members
    } else if k == "field"@ {
        NodeKind::Field
    } else if k == "field_definition"@ {
        NodeKind::FieldDefinition
    } else if k == "method"@ {
        NodeKind::Method
    } else if k == "constructor"@ {
        NodeKind::Constructor
    } else if k == "function_definition"@ {
        NodeKind::FunctionDefinition
    } else if k == "if_statement"@ {
        NodeKind::IfStatement
    } else if k == "if_block"@ {
        NodeKind::IfBlock
    } else if k == "then_block"@ {
        NodeKind::ThenBlock
    } else if k == "block"@ {
        NodeKind::Block
    } else if k == "call_expression"@ {
        NodeKind::CallExpression
    } else if k == "assignment_expression"@ {
        NodeKind::AssignmentExpression
    } else if k == "variable_declaration"@ {
        NodeKind::VariableDeclaration
    } else if k == "assignment"@ {
        NodeKind::Assignment
    } else if k == "ERROR"@ {
        NodeKind::Error
    } else if k == "string"@ {
        NodeKind::StringLit
    } else if k == "arguments"@ {
        NodeKind::Arguments
    } else if k == "member_expression"@ {
        NodeKind::MemberExpression
    } else if k == "number"@ {
        NodeKind::Number
    } else if k == "boolean"@ {
        NodeKind::Boolean
    } else if k == "actor"@ {
        NodeKind::ActorKw
    } else if k == "class"@ {
        NodeKind::ClassKw
    } else if k == "trait"@ {
        NodeKind::TraitKw
    } else if k == "primitive"@ {
        NodeKind::PrimitiveKw
    } else if k == "new"@ {
        NodeKind::NewKw
    } else if k == "fun"@ {
        NodeKind::FunKw
    } else if k == "be"@ {
        NodeKind::BeKw
    } else if k == "let"@ {
        NodeKind::LetKw
    } else if k == "var"@ {
        NodeKind::VarKw
    } else if k == "embed"@ {
        NodeKind::EmbedKw
    } else if k == "identifier"@ {
        NodeKind::Identifier
    } else if k == "parameters"@ {
        NodeKind::Parameters
    } else if k == ":"@ {
        NodeKind::Colon
    } else if k == ";"@ {
        NodeKind::Semicolon
    } else if k == "base_type"@ {
        NodeKind::BaseType
    } else if k == "union_type"@ {
        NodeKind::UnionType
    } else if k == "="@ {
        NodeKind::EqSign
    } else if k == "=>"@ {
        NodeKind::Arrow
    } else if k == "val"@ {
        NodeKind::ValKw
    } else if k == "ref"@ {
        NodeKind::RefKw
    } else if k == "iso"@ {
        NodeKind::IsoKw
    } else if k == "trn"@ {
        NodeKind::TrnKw
    } else if k == "box"@ {
        NodeKind::BoxKw
    } else if k == "tag"@ {
        NodeKind::TagKw
    } else if k == "("@ {
        NodeKind::LParen
    } else if k == ")"@ {
        NodeKind::RParen
    } else if k == "if"@ {
        NodeKind::IfKw
    } else if k == seq!['t', 'h', 'e', 'n'] {
        NodeKind::ThenKw
    } else if k == "end"@ {
        NodeKind::EndKw
    } else if k == "is"@ {
        NodeKind::IsKw
    } else if k == "capability"@ {
        NodeKind::Capability
    } else {
        NodeKind::Other
    }
}

/// Classify one grammar kind name.
pub fn classify(k: &Vec<char>) -> (r: NodeKind)
    ensures
        r == spec_classify(k@),
{
    if eq_str(k, "source_file") {
        NodeKind::SourceFile
    } else if eq_str(k, "block_comment") {
        NodeKind::BlockComment
    } else if eq_str(k, "line_comment") {
        NodeKind::LineComment
    } else if eq_str(k, "use_statement") {
        NodeKind::UseStatement
    } else if eq_str(k, "actor_definition") {
        NodeKind::ActorDefinition
    } else if eq_str(k, "class_definition") {
        NodeKind::ClassDefinition
    } else if eq_str(k, "trait_definition") {
        NodeKind::TraitDefinition
    } else if eq_str(k, "primitive_definition") {
        NodeKind::PrimitiveDefinition
    } else if eq_str(k, "type_definition") {
        NodeKind::TypeDefinition
    } else if eq_str(k, "type_alias") {
        NodeKind::TypeAlias
    } else if eq_str(k, "members") {
        NodeKind::Members
    } else if eq_str(k, "field") {
        NodeKind::Field
    } else if eq_str(k, "field_definition") {
        NodeKind::FieldDefinition
    } else if eq_str(k, "method") {
        NodeKind::Method
    } else if eq_str(k, "constructor") {
        NodeKind::Constructor
    } else if eq_str(k, "function_definition") {
        NodeKind::FunctionDefinition
    } else if eq_str(k, "if_statement") {
        NodeKind::IfStatement
    } else if eq_str(k, "if_block") {
        NodeKind::IfBlock
    } else if eq_str(k, "then_block") {
        NodeKind::ThenBlock
    } else if eq_str(k, "block") {
        NodeKind::Block
    } else if eq_str(k, "call_expression") {
        NodeKind::CallExpression
    } else if eq_str(k, "assignment_expression") {
        NodeKind::AssignmentExpression
    } else if eq_str(k, "variable_declaration") {
        NodeKind::VariableDeclaration
    } else if eq_str(k, "assignment") {
        NodeKind::Assignment
    } else if eq_str(k, "ERROR") {
        NodeKind::Error
    } else if eq_str(k, "string") {
        NodeKind::StringLit
    } else if eq_str(k, "arguments") {
        NodeKind::Arguments
    } else if eq_str(k, "member_expression") {
        NodeKind::MemberExpression
    } else if eq_str(k, "number") {
        NodeKind::Number
    } else if eq_str(k, "boolean") {
        NodeKind::Boolean
    } else if eq_str(k, "actor") {
        NodeKind::ActorKw
    } else if eq_str(k, "class") {
        NodeKind::ClassKw
    } else if eq_str(k, "trait") {
        NodeKind::TraitKw
    } else if eq_str(k, "primitive") {
        NodeKind::PrimitiveKw
    } else if eq_str(k, "new") {
        NodeKind::NewKw
    } else if eq_str(k, "fun") {
        NodeKind::FunKw
    } else if eq_str(k, "be") {
        NodeKind::BeKw
    } else if eq_str(k, "let") {
        NodeKind::LetKw
    } else if eq_str(k, "var") {
        NodeKind::VarKw
    } else if eq_str(k, "embed") {
        NodeKind::EmbedKw
    } else if eq_str(k, "identifier") {
        NodeKind::Identifier
    } else if eq_str(k, "parameters") {
        NodeKind::Parameters
    } else if eq_str(k, ":") {
        NodeKind::Colon
    } else if eq_str(k, ";") {
        NodeKind::Semicolon
    } else if eq_str(k, "base_type") {
        NodeKind::BaseType
    } else if eq_str(k, "union_type") {
        NodeKind::UnionType
    } else if eq_str(k, "=") {
        NodeKind::EqSign
    } else if eq_str(k, "=>") {
        NodeKind::Arrow
    } else if eq_str(k, "val") {
        NodeKind::ValKw
    } else if eq_str(k, "ref") {
        NodeKind::RefKw
    } else if eq_str(k, "iso") {
        NodeKind::IsoKw
    } else if eq_str(k, "trn") {
        NodeKind::TrnKw
    } else if eq_str(k, "box") {
        NodeKind::BoxKw
    } else if eq_str(k, "tag") {
        NodeKind::TagKw
    } else if eq_str(k, "(") {
        NodeKind::LParen
    } else if eq_str(k, ")") {
        NodeKind::RParen
    } else if eq_str(k, "if") {
        NodeKind::IfKw
    } else if is_kw_tn(k) {
        NodeKind::ThenKw
    } else if eq_str(k, "end") {
        NodeKind::EndKw
    } else if eq_str(k, "is") {
        NodeKind::IsKw
    } else if eq_str(k, "capability") {
        NodeKind::Capability
    } else {
        NodeKind::Other
    }
}

/// Whether the name is the keyword that closes a condition and opens its body.
fn is_kw_tn(k: &Vec<char>) -> (r: bool)
    ensures
        r == (k@ == seq!['t', 'h', 'e', 'n']),
{
    let r = k.len() == 4 && k[0] == 't' && k[1] == 'h' && k[2] == 'e' && k[3] == 'n';
    proof {
        if r {
            assert(k@ =~= seq!['t', 'h', 'e', 'n']);
        }
    }
    r
}

/// View a raw node gets once classified.
pub open spec fn typed_v(r: RawNode) -> NodeV
    decreases r,
{
    NodeV { kind: spec_classify(r.kind@), text: r.text@, children: typed_kids_v(r.children@) }
}

/// Views a raw node sequence gets once classified.
pub open spec fn typed_kids_v(s: Seq<RawNode>) -> Seq<NodeV>
    decreases s,
{
    if s.len() == 0 {
        Seq::empty()
    } else {
        typed_kids_v(s.drop_last()).push(typed_v(s.last()))
    }
}

/// The classified view of a raw node sequence is the sequence of the
/// classified views.
pub proof fn lemma_typed_kids_v(s: Seq<RawNode>)
    ensures
        typed_kids_v(s).len() == s.len(),
        forall|i: int| 0 <= i < s.len() ==> typed_kids_v(s)[i] == typed_v(s[i]),
    decreases s.len(),
{
    if s.len() > 0 {
        lemma_typed_kids_v(s.drop_last());
    }
}

/// Classify a whole raw tree.
pub fn classify_tree(r: &RawNode) -> (t: SyntaxNode)
    ensures
        t@ == typed_v(*r),
    decreases *r,
{
    let n: usize = r.children.len();
    let mut children: Vec<SyntaxNode> = Vec::new();
    let mut i: usize = 0;
    while i < n
        invariant
            0 <= i <= n,
            n == r.children@.len(),
            children@.len() == i,
            forall|j: int| 0 <= j < i ==> node_v(children@[j]) == typed_v(r.children@[j]),
        decreases n - i,
    {
        children.push(classify_tree(&r.children[i]));
        i = i + 1;
    }
    let t = SyntaxNode { kind: classify(&r.kind), text: crate::text::sub_vec(&r.text, 0, r.text.len()), children };
    proof {
        lemma_kids_v(t.children@);
        lemma_typed_kids_v(r.children@);
        assert(kids_v(t.children@) =~= typed_kids_v(r.children@));
        assert(t.text@ =~= r.text@);
    }
    t
}

} // verus!
