//! The syntax tree as text.

use vstd::prelude::*;
use vstd::string::*;
use crate::ast::{
    BinOpNode, Block, Expr, ExprNode, Field, FieldPat, FuncArg, Ident, IdentNode, Item, ItemNode,
    LitNode, MatchArm, Module, Pat, PatNode, PathNode, Stmt, StmtNode, Type, TypeNode, UnOpNode,
    Variant, WithId,
};
use crate::ir::temps::{decimal, decimal_string};
use crate::session::{Interner, Name};
use crate::util::{IntKind, Width};

verus! {

/// The length of the first line of `text`: the place of its first line
/// feed, or its length where it has none.
pub open spec fn line_end(text: Seq<char>) -> nat
    decreases text.len(),
{
    if text.len() == 0 || text[0] == '\n' {
        0
    } else {
        1 + line_end(text.drop_first())
    }
}

/// `line_end` is at most the length; no character before it is a line
/// feed, and the character at it, if there is one, is a line feed.
pub proof fn lemma_line_end(text: Seq<char>)
    ensures
        line_end(text) <= text.len(),
        forall|k: int| 0 <= k < line_end(text) ==> text[k] != '\n',
        line_end(text) < text.len() ==> text[line_end(text) as int] == '\n',
    decreases text.len(),
{
    if !(text.len() == 0 || text[0] == '\n') {
        lemma_line_end(text.drop_first());
        assert forall|k: int| 0 <= k < line_end(text) implies text[k] != '\n' by {
            if k > 0 {
                assert(text.drop_first()[k - 1] == text[k]);
            }
        }
    }
}

/// A place that meets the description of `line_end` is `line_end`.
pub proof fn lemma_line_end_is(text: Seq<char>, end: nat)
    requires
        end <= text.len(),
        forall|k: int| 0 <= k < end ==> text[k] != '\n',
        end < text.len() ==> text[end as int] == '\n',
    ensures
        line_end(text) == end,
{
    lemma_line_end(text);
    let found = line_end(text);
    if found < end {
        assert(text[found as int] == '\n');
    } else if end < found {
        assert(text[end as int] == '\n');
    }
}

/// Every line of `text`, with `prefix` before it and `suffix` and a line
/// feed after it. A line ends at a line feed or at the end of the text; a
/// line feed at the very end begins no further line, and an empty text has
/// no line.
pub open spec fn each_line(text: Seq<char>, prefix: Seq<char>, suffix: Seq<char>) -> Seq<char>
    decreases text.len(),
{
    if text.len() == 0 {
        Seq::empty()
    } else {
        let end = line_end(text) as int;
        let line = prefix + text.subrange(0, end) + suffix + seq!['\n'];
        if end < text.len() {
            line + each_line(text.subrange(end + 1, text.len() as int), prefix, suffix)
        } else {
            line
        }
    }
}

/// Adds every line of `text` to `out`, as `each_line` says.
fn push_each_line(out: &mut String, text: &str, prefix: &str, suffix: &str)
    ensures
        final(out)@ == old(out)@ + each_line(text@, prefix@, suffix@),
{
    proof {
        reveal_strlit("\n");
    }
    let n = text.unicode_len();
    let mut start: usize = 0;
    let mut i: usize = 0;
    assert(text@.subrange(0, n as int) =~= text@);
    for c in it: text.chars()
        invariant
            i == it.index(),
            it.seq() == text@,
            n == text@.len(),
            start <= i <= n,
            "\n"@ == seq!['\n'],
            forall|k: int| start <= k < i ==> text@[k] != '\n',
            out@ + each_line(text@.subrange(start as int, n as int), prefix@, suffix@) == old(
                out,
            )@ + each_line(text@, prefix@, suffix@),
    {
        assert(c == text@[i as int]);
        if c == '\n' {
            let ghost before = out@;
            let ghost rest = text@.subrange(start as int, n as int);
            proof {
                lemma_line_end_is(rest, (i - start) as nat);
                assert(rest.subrange(0, i - start) =~= text@.subrange(start as int, i as int));
                assert(rest.subrange(i - start + 1, rest.len() as int) =~= text@.subrange(
                    i + 1,
                    n as int,
                ));
            }
            out.append(prefix);
            out.append(text.substring_char(start, i));
            out.append(suffix);
            out.append("\n");
            assert(out@ + each_line(text@.subrange(i + 1, n as int), prefix@, suffix@) =~= before
                + each_line(rest, prefix@, suffix@));
            start = i + 1;
        }
        i += 1;
    }
    let ghost rest = text@.subrange(start as int, n as int);
    if start < n {
        proof {
            lemma_line_end_is(rest, (n - start) as nat);
            assert(rest.subrange(0, n - start) =~= rest);
        }
        out.append(prefix);
        out.append(text.substring_char(start, n));
        out.append(suffix);
        out.append("\n");
    }
    assert(out@ =~= old(out)@ + each_line(text@, prefix@, suffix@));
}

/// The texts, one after the other, with `sep` between each two.
pub open spec fn joined(parts: Seq<Seq<char>>, sep: Seq<char>) -> Seq<char>
    decreases parts.len(),
{
    if parts.len() == 0 {
        Seq::empty()
    } else if parts.len() == 1 {
        parts[0]
    } else {
        joined(parts.drop_last(), sep) + sep + parts.last()
    }
}

/// The texts as a list: in square brackets, with a comma and a space
/// between each two.
pub open spec fn listed(parts: Seq<Seq<char>>) -> Seq<char> {
    "["@ + joined(parts, ", "@) + "]"@
}

/// The strings as sequences of characters.
pub open spec fn views(parts: Seq<String>) -> Seq<Seq<char>> {
    parts.map_values(|s: String| s@)
}

/// The strings, one after the other, with `sep` between each two.
fn join(parts: &Vec<String>, sep: &str) -> (out: String)
    ensures
        out@ == joined(views(parts@), sep@),
{
    let mut out = String::new();
    let mut i: usize = 0;
    while i < parts.len()
        invariant
            i <= parts.len(),
            out@ == joined(views(parts@).take(i as int), sep@),
        decreases parts.len() - i,
    {
        if i > 0 {
            out.append(sep);
        }
        out.append(parts[i].as_str());
        proof {
            let all = views(parts@);
            assert(all.take(i as int + 1).drop_last() =~= all.take(i as int));
            assert(all.take(i as int + 1).last() == parts@[i as int]@);
        }
        i += 1;
    }
    assert(views(parts@).take(i as int) =~= views(parts@));
    out
}

/// The strings as a list.
fn list(parts: &Vec<String>) -> (out: String)
    ensures
        out@ == listed(views(parts@)),
{
    let mut out = String::from_str("[");
    let inner = join(parts, ", ");
    out.append(inner.as_str());
    out.append("]");
    out
}

/// The text of a name: the string that the table holds for it, and the
/// empty text for a name that the table does not hold.
pub open spec fn name_text(name: Name, names: Seq<Seq<char>>) -> Seq<char> {
    if name@ < names.len() {
        names[name@ as int]
    } else {
        Seq::empty()
    }
}

/// Adds the text of a name.
fn push_name(out: &mut String, name: Name, names: &Interner)
    ensures
        final(out)@ == old(out)@ + name_text(name, names@),
{
    match names.lookup(name) {
        Some(text) => {
            out.append(text.as_str());
        },
        None => {
            assert(out@ =~= old(out)@ + name_text(name, names@));
        },
    }
}

/// The text of a width: its number of bits, or nothing for any width.
pub open spec fn width_text(width: Width) -> Seq<char> {
    match width {
        Width::AnyWidth => Seq::empty(),
        Width::Width32 => "32"@,
        Width::Width16 => "16"@,
        Width::Width8 => "8"@,
    }
}

/// The text of an integer kind: `int`, or `i` or `u` and the width.
pub open spec fn int_kind_text(kind: IntKind) -> Seq<char> {
    match kind {
        IntKind::GenericInt => "int"@,
        IntKind::SignedInt(width) => "i"@ + width_text(width),
        IntKind::UnsignedInt(width) => "u"@ + width_text(width),
    }
}

impl Width {
    /// The width as text.
    pub fn show(&self) -> (out: String)
        ensures
            out@ == width_text(*self),
    {
        match self {
            Width::AnyWidth => String::new(),
            Width::Width32 => String::from_str("32"),
            Width::Width16 => String::from_str("16"),
            Width::Width8 => String::from_str("8"),
        }
    }
}

impl IntKind {
    /// The integer kind as text.
    pub fn show(&self) -> (out: String)
        ensures
            out@ == int_kind_text(*self),
    {
        match self {
            IntKind::GenericInt => String::from_str("int"),
            IntKind::SignedInt(width) => {
                let mut out = String::from_str("i");
                out.append(width.show().as_str());
                out
            },
            IntKind::UnsignedInt(width) => {
                let mut out = String::from_str("u");
                out.append(width.show().as_str());
                out
            },
        }
    }
}

/// The text of a literal: a number in decimal, followed by its kind; a
/// string between double quotes, as it is; `true` or `false`.
pub open spec fn lit_text(lit: LitNode) -> Seq<char> {
    match lit {
        LitNode::NumLit(n, kind) => decimal(n as nat) + int_kind_text(kind),
        LitNode::StringLit(s) => "\""@ + s@ + "\""@,
        LitNode::BoolLit(b) => if b {
            "true"@
        } else {
            "false"@
        },
    }
}

impl LitNode {
    /// The literal as text.
    pub fn show(&self) -> (out: String)
        ensures
            out@ == lit_text(*self),
    {
        match self {
            LitNode::NumLit(n, kind) => {
                let mut out = decimal_string(*n);
                out.append(kind.show().as_str());
                out
            },
            LitNode::StringLit(s) => {
                let mut out = String::from_str("\"");
                out.append(s.as_str());
                out.append("\"");
                out
            },
            LitNode::BoolLit(b) => {
                if *b {
                    String::from_str("true")
                } else {
                    String::from_str("false")
                }
            },
        }
    }
}

/// The sign of a binary operator.
pub open spec fn bin_op_text(op: BinOpNode) -> Seq<char> {
    match op {
        BinOpNode::PlusOp => "+"@,
        BinOpNode::MinusOp => "-"@,
        BinOpNode::TimesOp => "*"@,
        BinOpNode::DivideOp => "/"@,
        BinOpNode::ModOp => "%"@,
        BinOpNode::EqualsOp => "=="@,
        BinOpNode::NotEqualsOp => "!="@,
        BinOpNode::LessOp => "<"@,
        BinOpNode::LessEqOp => "<="@,
        BinOpNode::GreaterOp => ">"@,
        BinOpNode::GreaterEqOp => ">="@,
        BinOpNode::AndAlsoOp => "&&"@,
        BinOpNode::OrElseOp => "||"@,
        BinOpNode::BitAndOp => "&"@,
        BinOpNode::BitOrOp => "|"@,
        BinOpNode::BitXorOp => "^"@,
        BinOpNode::LeftShiftOp => "<<"@,
        BinOpNode::RightShiftOp => ">>"@,
    }
}

impl BinOpNode {
    /// The sign of the operator.
    pub fn show(&self) -> (out: &'static str)
        ensures
            out@ == bin_op_text(*self),
    {
        match self {
            BinOpNode::PlusOp => "+",
            BinOpNode::MinusOp => "-",
            BinOpNode::TimesOp => "*",
            BinOpNode::DivideOp => "/",
            BinOpNode::ModOp => "%",
            BinOpNode::EqualsOp => "==",
            BinOpNode::NotEqualsOp => "!=",
            BinOpNode::LessOp => "<",
            BinOpNode::LessEqOp => "<=",
            BinOpNode::GreaterOp => ">",
            BinOpNode::GreaterEqOp => ">=",
            BinOpNode::AndAlsoOp => "&&",
            BinOpNode::OrElseOp => "||",
            BinOpNode::BitAndOp => "&",
            BinOpNode::BitOrOp => "|",
            BinOpNode::BitXorOp => "^",
            BinOpNode::LeftShiftOp => "<<",
            BinOpNode::RightShiftOp => ">>",
        }
    }
}

/// The sign of a unary operator.
pub open spec fn un_op_text(op: UnOpNode) -> Seq<char> {
    match op {
        UnOpNode::Deref => "*"@,
        UnOpNode::AddrOf => "&"@,
        UnOpNode::Negate => "!"@,
    }
}

impl UnOpNode {
    /// The sign of the operator.
    pub fn show(&self) -> (out: &'static str)
        ensures
            out@ == un_op_text(*self),
    {
        match self {
            UnOpNode::Deref => "*",
            UnOpNode::AddrOf => "&",
            UnOpNode::Negate => "!",
        }
    }
}

/// The text of an identifier: its name, and its type arguments, if it has
/// any, as a list between angle brackets.
pub open spec fn ident_text(ident: IdentNode, names: Seq<Seq<char>>) -> Seq<char>
    decreases ident,
{
    name_text(ident.name, names) + match ident.tps {
        Some(tps) => if tps@.len() > 0 {
            "<"@ + listed(types_texts(tps@, names)) + ">"@
        } else {
            Seq::empty()
        },
        None => Seq::empty(),
    }
}

/// The text of a type.
pub open spec fn type_text(t: TypeNode, names: Seq<Seq<char>>) -> Seq<char>
    decreases t,
{
    match t {
        TypeNode::BoolType => "bool"@,
        TypeNode::UnitType => "()"@,
        TypeNode::IntType(kind) => int_kind_text(kind),
        TypeNode::PtrType(target) => "*("@ + type_text(target.val, names) + ")"@,
        TypeNode::NamedType(ident) => ident_text(ident.val, names),
        TypeNode::FuncType(args, ret) => "("@ + listed(types_texts(args@, names)) + " -> "@
            + type_text(ret.val, names) + ")"@,
        TypeNode::ArrayType(element, len) => "("@ + type_text(element.val, names) + ")["@
            + decimal(len as nat) + "]"@,
        TypeNode::TupleType(parts) => "("@ + listed(types_texts(parts@, names)) + ")"@,
    }
}

/// The texts of the types, in order.
pub open spec fn types_texts(types: Seq<Type>, names: Seq<Seq<char>>) -> Seq<Seq<char>>
    decreases types,
{
    if types.len() == 0 {
        Seq::empty()
    } else {
        types_texts(types.drop_last(), names).push(type_text(types.last().val, names))
    }
}

/// The texts of the identifiers, in order.
pub open spec fn idents_texts(idents: Seq<Ident>, names: Seq<Seq<char>>) -> Seq<Seq<char>>
    decreases idents.len(),
{
    if idents.len() == 0 {
        Seq::empty()
    } else {
        idents_texts(idents.drop_last(), names).push(ident_text(idents.last().val, names))
    }
}

/// The types as texts.
fn show_types(types: &Vec<Type>, names: &Interner) -> (texts: Vec<String>)
    ensures
        views(texts@) == types_texts(types@, names@),
    decreases *types,
{
    let mut texts: Vec<String> = Vec::new();
    let mut i: usize = 0;
    assert(views(texts@) =~= types_texts(types@.take(0), names@));
    while i < types.len()
        invariant
            i <= types.len(),
            views(texts@) == types_texts(types@.take(i as int), names@),
        decreases types.len() - i,
    {
        let text = types[i].val.show(names);
        proof {
            assert(types@.take(i as int + 1).drop_last() =~= types@.take(i as int));
            assert(views(texts@.push(text)) =~= views(texts@).push(text@));
        }
        texts.push(text);
        i += 1;
    }
    assert(types@.take(i as int) =~= types@);
    texts
}

/// The identifiers as texts.
fn show_idents(idents: &Vec<Ident>, names: &Interner) -> (texts: Vec<String>)
    ensures
        views(texts@) == idents_texts(idents@, names@),
{
    let mut texts: Vec<String> = Vec::new();
    let mut i: usize = 0;
    assert(views(texts@) =~= idents_texts(idents@.take(0), names@));
    while i < idents.len()
        invariant
            i <= idents.len(),
            views(texts@) == idents_texts(idents@.take(i as int), names@),
        decreases idents.len() - i,
    {
        let text = idents[i].val.show(names);
        proof {
            assert(idents@.take(i as int + 1).drop_last() =~= idents@.take(i as int));
            assert(views(texts@.push(text)) =~= views(texts@).push(text@));
        }
        texts.push(text);
        i += 1;
    }
    assert(idents@.take(i as int) =~= idents@);
    texts
}

impl IdentNode {
    /// The identifier as text, its name looked up in `names`.
    pub fn show(&self, names: &Interner) -> (out: String)
        ensures
            out@ == ident_text(*self, names@),
        decreases *self,
    {
        let mut out = String::new();
        push_name(&mut out, self.name, names);
        match &self.tps {
            Some(tps) => {
                if tps.len() > 0 {
                    out.append("<");
                    out.append(list(&show_types(tps, names)).as_str());
                    out.append(">");
                }
            },
            None => {},
        }
        assert(out@ =~= ident_text(*self, names@));
        out
    }
}

impl TypeNode {
    /// The type as text.
    pub fn show(&self, names: &Interner) -> (out: String)
        ensures
            out@ == type_text(*self, names@),
        decreases *self,
    {
        let mut out = String::new();
        match self {
            TypeNode::BoolType => {
                out.append("bool");
            },
            TypeNode::UnitType => {
                out.append("()");
            },
            TypeNode::IntType(kind) => {
                out.append(kind.show().as_str());
            },
            TypeNode::PtrType(target) => {
                out.append("*(");
                out.append(target.val.show(names).as_str());
                out.append(")");
            },
            TypeNode::NamedType(ident) => {
                out.append(ident.val.show(names).as_str());
            },
            TypeNode::FuncType(args, ret) => {
                out.append("(");
                out.append(list(&show_types(args, names)).as_str());
                out.append(" -> ");
                out.append(ret.val.show(names).as_str());
                out.append(")");
            },
            TypeNode::ArrayType(element, len) => {
                out.append("(");
                out.append(element.val.show(names).as_str());
                out.append(")[");
                out.append(decimal_string(*len).as_str());
                out.append("]");
            },
            TypeNode::TupleType(parts) => {
                out.append("(");
                out.append(list(&show_types(parts, names)).as_str());
                out.append(")");
            },
        }
        assert(out@ =~= type_text(*self, names@));
        out
    }
}

/// The empty string.
fn nothing() -> (s: &'static str)
    ensures
        s@ == Seq::<char>::empty(),
{
    proof {
        reveal_strlit("");
    }
    let s = "";
    assert(s@ =~= Seq::<char>::empty());
    s
}

/// A colon, a space and the type, where there is a type.
pub open spec fn type_note_text(t: Option<Type>, names: Seq<Seq<char>>) -> Seq<char> {
    match t {
        Some(t) => ": "@ + type_text(t.val, names),
        None => Seq::empty(),
    }
}

/// Adds the type note.
fn push_type_note(out: &mut String, t: &Option<Type>, names: &Interner)
    ensures
        final(out)@ == old(out)@ + type_note_text(*t, names@),
{
    match t {
        Some(t) => {
            out.append(": ");
            out.append(t.val.show(names).as_str());
        },
        None => {},
    }
    assert(out@ =~= old(out)@ + type_note_text(*t, names@));
}

/// The text of a pattern.
pub open spec fn pat_text(pat: PatNode, names: Seq<Seq<char>>) -> Seq<char>
    decreases pat,
{
    match pat {
        PatNode::DiscardPat(t) => "_"@ + type_note_text(t, names),
        PatNode::IdentPat(ident, t) => ident_text(ident.val, names) + type_note_text(t, names),
        PatNode::TuplePat(parts) => "("@ + listed(pats_texts(parts@, names)) + ")"@,
        PatNode::VariantPat(ident, parts) => ident_text(ident.val, names) + "("@ + listed(
            pats_texts(parts@, names),
        ) + ")"@,
        PatNode::StructPat(ident, fields) => ident_text(ident.val, names) + " { "@ + listed(
            field_pats_texts(fields@, names),
        ) + " }"@,
    }
}

/// The text of a field of a struct pattern: its name, a colon, its pattern.
pub open spec fn field_pat_text(field: FieldPat, names: Seq<Seq<char>>) -> Seq<char>
    decreases field,
{
    name_text(field.name, names) + ": "@ + pat_text(field.pat.val, names)
}

/// The texts of the patterns, in order.
pub open spec fn pats_texts(pats: Seq<Pat>, names: Seq<Seq<char>>) -> Seq<Seq<char>>
    decreases pats,
{
    if pats.len() == 0 {
        Seq::empty()
    } else {
        pats_texts(pats.drop_last(), names).push(pat_text(pats.last().val, names))
    }
}

/// The texts of the fields of a struct pattern, in order.
pub open spec fn field_pats_texts(fields: Seq<FieldPat>, names: Seq<Seq<char>>) -> Seq<
    Seq<char>,
>
    decreases fields,
{
    if fields.len() == 0 {
        Seq::empty()
    } else {
        field_pats_texts(fields.drop_last(), names).push(field_pat_text(fields.last(), names))
    }
}

/// The patterns as texts.
fn show_pats(pats: &Vec<Pat>, names: &Interner) -> (texts: Vec<String>)
    ensures
        views(texts@) == pats_texts(pats@, names@),
    decreases *pats,
{
    let mut texts: Vec<String> = Vec::new();
    let mut i: usize = 0;
    assert(views(texts@) =~= pats_texts(pats@.take(0), names@));
    while i < pats.len()
        invariant
            i <= pats.len(),
            views(texts@) == pats_texts(pats@.take(i as int), names@),
        decreases pats.len() - i,
    {
        let text = pats[i].val.show(names);
        proof {
            assert(pats@.take(i as int + 1).drop_last() =~= pats@.take(i as int));
            assert(views(texts@.push(text)) =~= views(texts@).push(text@));
        }
        texts.push(text);
        i += 1;
    }
    assert(pats@.take(i as int) =~= pats@);
    texts
}

/// The fields of a struct pattern as texts.
fn show_field_pats(fields: &Vec<FieldPat>, names: &Interner) -> (texts: Vec<String>)
    ensures
        views(texts@) == field_pats_texts(fields@, names@),
    decreases *fields,
{
    let mut texts: Vec<String> = Vec::new();
    let mut i: usize = 0;
    assert(views(texts@) =~= field_pats_texts(fields@.take(0), names@));
    while i < fields.len()
        invariant
            i <= fields.len(),
            views(texts@) == field_pats_texts(fields@.take(i as int), names@),
        decreases fields.len() - i,
    {
        let text = fields[i].show(names);
        proof {
            assert(fields@.take(i as int + 1).drop_last() =~= fields@.take(i as int));
            assert(views(texts@.push(text)) =~= views(texts@).push(text@));
        }
        texts.push(text);
        i += 1;
    }
    assert(fields@.take(i as int) =~= fields@);
    texts
}

impl FieldPat {
    /// The field of a struct pattern as text.
    pub fn show(&self, names: &Interner) -> (out: String)
        ensures
            out@ == field_pat_text(*self, names@),
        decreases *self,
    {
        let mut out = String::new();
        push_name(&mut out, self.name, names);
        out.append(": ");
        out.append(self.pat.val.show(names).as_str());
        assert(out@ =~= field_pat_text(*self, names@));
        out
    }
}

impl PatNode {
    /// The pattern as text.
    pub fn show(&self, names: &Interner) -> (out: String)
        ensures
            out@ == pat_text(*self, names@),
        decreases *self,
    {
        let mut out = String::new();
        match self {
            PatNode::DiscardPat(t) => {
                out.append("_");
                push_type_note(&mut out, t, names);
            },
            PatNode::IdentPat(ident, t) => {
                out.append(ident.val.show(names).as_str());
                push_type_note(&mut out, t, names);
            },
            PatNode::TuplePat(parts) => {
                out.append("(");
                out.append(list(&show_pats(parts, names)).as_str());
                out.append(")");
            },
            PatNode::VariantPat(ident, parts) => {
                out.append(ident.val.show(names).as_str());
                out.append("(");
                out.append(list(&show_pats(parts, names)).as_str());
                out.append(")");
            },
            PatNode::StructPat(ident, fields) => {
                out.append(ident.val.show(names).as_str());
                out.append(" { ");
                out.append(list(&show_field_pats(fields, names)).as_str());
                out.append(" }");
            },
        }
        assert(out@ =~= pat_text(*self, names@));
        out
    }
}

/// The text of a path: its segments with `::` between each two, after a
/// leading `::` where the path starts at the root.
pub open spec fn path_text(path: PathNode, names: Seq<Seq<char>>) -> Seq<char> {
    let segments = joined(idents_texts(path.elems@, names), "::"@);
    if path.global {
        "::"@ + segments
    } else {
        segments
    }
}

impl PathNode {
    /// The path as text.
    pub fn show(&self, names: &Interner) -> (out: String)
        ensures
            out@ == path_text(*self, names@),
    {
        let mut out = String::new();
        if self.global {
            out.append("::");
        }
        out.append(join(&show_idents(&self.elems, names), "::").as_str());
        assert(out@ =~= path_text(*self, names@));
        out
    }
}

/// The text of an arm of a match: its pattern, an arrow, its body.
pub open spec fn arm_text(arm: MatchArm, names: Seq<Seq<char>>) -> Seq<char>
    decreases arm,
{
    pat_text(arm.pat.val, names) + " => "@ + expr_text(arm.body.val, names)
}

/// The arms of a match, each on a line of its own, indented, with a comma
/// after it.
pub open spec fn arms_text(arms: Seq<MatchArm>, names: Seq<Seq<char>>) -> Seq<char>
    decreases arms,
{
    if arms.len() == 0 {
        Seq::empty()
    } else {
        arms_text(arms.drop_last(), names) + "    "@ + arm_text(arms.last(), names) + ",\n"@
    }
}

/// The texts of the expressions, in order.
pub open spec fn exprs_texts(exprs: Seq<Expr>, names: Seq<Seq<char>>) -> Seq<Seq<char>>
    decreases exprs,
{
    if exprs.len() == 0 {
        Seq::empty()
    } else {
        exprs_texts(exprs.drop_last(), names).push(expr_text(exprs.last().val, names))
    }
}

/// The text of an expression.
pub open spec fn expr_text(e: ExprNode, names: Seq<Seq<char>>) -> Seq<char>
    decreases e,
{
    match e {
        ExprNode::UnitExpr => "()"@,
        ExprNode::LitExpr(lit) => lit_text(lit.val),
        ExprNode::TupleExpr(parts) => "("@ + listed(exprs_texts(parts@, names)) + ")"@,
        ExprNode::IdentExpr(ident) => ident_text(ident.val, names),
        ExprNode::PathExpr(path) => path_text(path.val, names),
        ExprNode::GroupExpr(inner) => "("@ + expr_text(inner.val, names) + ")"@,
        ExprNode::BinOpExpr(op, left, right) => "("@ + expr_text(left.val, names) + bin_op_text(
            op.val,
        ) + expr_text(right.val, names) + ")"@,
        ExprNode::UnOpExpr(op, operand) => "("@ + un_op_text(op.val) + expr_text(
            operand.val,
            names,
        ) + ")"@,
        ExprNode::IndexExpr(array, index) => expr_text(array.val, names) + "["@ + expr_text(
            index.val,
            names,
        ) + "]"@,
        ExprNode::DotExpr(object, field) => expr_text(object.val, names) + "."@ + name_text(
            field,
            names,
        ),
        ExprNode::ArrowExpr(object, field) => expr_text(object.val, names) + "->"@ + name_text(
            field,
            names,
        ),
        ExprNode::AssignExpr(target, value) => "("@ + expr_text(target.val, names) + "="@
            + expr_text(value.val, names) + ")"@,
        ExprNode::CallExpr(callee, args) => expr_text(callee.val, names) + "("@ + listed(
            exprs_texts(args@, names),
        ) + ")"@,
        ExprNode::CastExpr(value, t) => "("@ + expr_text(value.val, names) + " as "@ + type_text(
            t.val,
            names,
        ) + ")"@,
        ExprNode::IfExpr(cond, on_true, on_false) => "if "@ + expr_text(cond.val, names)
            + " {\n    "@ + block_text(*on_true, names) + "} else {\n    "@ + block_text(
            *on_false,
            names,
        ) + "}"@,
        ExprNode::BlockExpr(block) => block_text(*block, names),
        ExprNode::ReturnExpr(value) => "return "@ + expr_text(value.val, names),
        ExprNode::WhileExpr(cond, body) => "while "@ + expr_text(cond.val, names) + " "@
            + block_text(*body, names),
        ExprNode::ForExpr(init, cond, step, body) => "for ("@ + expr_text(init.val, names) + ";"@
            + expr_text(cond.val, names) + ";"@ + expr_text(step.val, names) + ") "@
            + block_text(*body, names),
        ExprNode::MatchExpr(subject, arms) => "match "@ + expr_text(subject.val, names)
            + " {\n"@ + arms_text(arms@, names) + "}"@,
    }
}

/// The text of a statement.
pub open spec fn stmt_text(s: StmtNode, names: Seq<Seq<char>>) -> Seq<char>
    decreases s,
{
    match s {
        StmtNode::LetStmt(pat, init) => "let "@ + pat_text(pat.val, names) + match init {
            Some(e) => " = "@ + expr_text(e.val, names),
            None => Seq::empty(),
        } + ";"@,
        StmtNode::ExprStmt(e) => expr_text(e.val, names),
        StmtNode::SemiStmt(e) => expr_text(e.val, names) + ";"@,
    }
}

/// The lines of the statements, each line indented by four spaces and
/// followed by a semicolon.
pub open spec fn stmts_lines(stmts: Seq<Stmt>, names: Seq<Seq<char>>) -> Seq<char>
    decreases stmts,
{
    if stmts.len() == 0 {
        Seq::empty()
    } else {
        stmts_lines(stmts.drop_last(), names) + each_line(
            stmt_text(stmts.last().val, names),
            "    "@,
            ";"@,
        )
    }
}

/// The lines of the items, each line after `prefix`.
pub open spec fn items_lines(items: Seq<Item>, prefix: Seq<char>, names: Seq<Seq<char>>) -> Seq<
    char,
>
    decreases items,
{
    if items.len() == 0 {
        Seq::empty()
    } else {
        items_lines(items.drop_last(), prefix, names) + each_line(
            item_text(items.last().val, names),
            prefix,
            Seq::empty(),
        )
    }
}

/// The text of a block: between braces, the lines of its items, of its
/// statements and of its final expression, indented by four spaces.
pub open spec fn block_text(b: Block, names: Seq<Seq<char>>) -> Seq<char>
    decreases b,
{
    "{\n"@ + items_lines(b.items@, "    "@, names) + stmts_lines(b.stmts@, names) + match b.expr {
        Some(e) => each_line(expr_text(e.val, names), "    "@, Seq::empty()),
        None => Seq::empty(),
    } + "}"@
}

/// The text of a function parameter: its name, a colon, its type.
pub open spec fn func_arg_text(arg: FuncArg, names: Seq<Seq<char>>) -> Seq<char> {
    ident_text(arg.ident.val, names) + ": "@ + type_text(arg.argtype.val, names)
}

/// The texts of the function parameters, in order.
pub open spec fn func_args_texts(args: Seq<FuncArg>, names: Seq<Seq<char>>) -> Seq<Seq<char>>
    decreases args.len(),
{
    if args.len() == 0 {
        Seq::empty()
    } else {
        func_args_texts(args.drop_last(), names).push(func_arg_text(args.last(), names))
    }
}

/// The text of a field of a struct: its name, a colon, its type.
pub open spec fn field_text(field: Field, names: Seq<Seq<char>>) -> Seq<char> {
    name_text(field.name, names) + ": "@ + type_text(field.fldtype.val, names)
}

/// The fields of a struct, each on a line of its own, indented, with a
/// comma after it.
pub open spec fn fields_text(fields: Seq<Field>, names: Seq<Seq<char>>) -> Seq<char>
    decreases fields.len(),
{
    if fields.len() == 0 {
        Seq::empty()
    } else {
        fields_text(fields.drop_last(), names) + "    "@ + field_text(fields.last(), names)
            + ",\n"@
    }
}

/// The types of the arguments of a variant, each followed by a comma and a
/// space.
pub open spec fn variant_args_text(args: Seq<Type>, names: Seq<Seq<char>>) -> Seq<char>
    decreases args.len(),
{
    if args.len() == 0 {
        Seq::empty()
    } else {
        variant_args_text(args.drop_last(), names) + type_text(args.last().val, names) + ", "@
    }
}

/// The text of a variant of an enum: its name and, in round brackets, the
/// types of its arguments.
pub open spec fn variant_text(variant: Variant, names: Seq<Seq<char>>) -> Seq<char> {
    ident_text(variant.ident.val, names) + "("@ + variant_args_text(variant.args@, names) + ")"@
}

/// The variants of an enum, each on a line of its own, indented, with a
/// comma after it.
pub open spec fn variants_text(variants: Seq<Variant>, names: Seq<Seq<char>>) -> Seq<char>
    decreases variants.len(),
{
    if variants.len() == 0 {
        Seq::empty()
    } else {
        variants_text(variants.drop_last(), names) + "    "@ + variant_text(
            variants.last(),
            names,
        ) + ",\n"@
    }
}

/// The type parameters of an item, if it has any, as a list between angle
/// brackets.
pub open spec fn type_params_text(tps: Seq<Ident>, names: Seq<Seq<char>>) -> Seq<char> {
    if tps.len() > 0 {
        "<"@ + listed(idents_texts(tps, names)) + ">"@
    } else {
        Seq::empty()
    }
}

/// The text of an item.
pub open spec fn item_text(item: ItemNode, names: Seq<Seq<char>>) -> Seq<char>
    decreases item,
{
    match item {
        ItemNode::FuncItem(ident, args, ret, body, tps) => "fn "@ + ident_text(ident.val, names)
            + type_params_text(tps@, names) + "("@ + listed(func_args_texts(args@, names))
            + ") -> "@ + type_text(ret.val, names) + " "@ + block_text(body, names),
        ItemNode::StructItem(ident, fields, tps) => "struct "@ + ident_text(ident.val, names)
            + type_params_text(tps@, names) + " {\n"@ + fields_text(fields@, names) + "}"@,
        ItemNode::EnumItem(ident, variants, tps) => "enum "@ + ident_text(ident.val, names)
            + type_params_text(tps@, names) + " {\n"@ + variants_text(variants@, names) + "}"@,
    }
}

/// The text of a source file: the lines of its items.
pub open spec fn module_text(module: Module, names: Seq<Seq<char>>) -> Seq<char> {
    items_lines(module.items@, Seq::empty(), names)
}

/// The expressions as texts.
fn show_exprs(exprs: &Vec<Expr>, names: &Interner) -> (texts: Vec<String>)
    ensures
        views(texts@) == exprs_texts(exprs@, names@),
    decreases *exprs,
{
    let mut texts: Vec<String> = Vec::new();
    let mut i: usize = 0;
    assert(views(texts@) =~= exprs_texts(exprs@.take(0), names@));
    while i < exprs.len()
        invariant
            i <= exprs.len(),
            views(texts@) == exprs_texts(exprs@.take(i as int), names@),
        decreases exprs.len() - i,
    {
        let text = exprs[i].val.show(names);
        proof {
            assert(exprs@.take(i as int + 1).drop_last() =~= exprs@.take(i as int));
            assert(views(texts@.push(text)) =~= views(texts@).push(text@));
        }
        texts.push(text);
        i += 1;
    }
    assert(exprs@.take(i as int) =~= exprs@);
    texts
}

/// The function parameters as texts.
fn show_func_args(args: &Vec<FuncArg>, names: &Interner) -> (texts: Vec<String>)
    ensures
        views(texts@) == func_args_texts(args@, names@),
{
    let mut texts: Vec<String> = Vec::new();
    let mut i: usize = 0;
    assert(views(texts@) =~= func_args_texts(args@.take(0), names@));
    while i < args.len()
        invariant
            i <= args.len(),
            views(texts@) == func_args_texts(args@.take(i as int), names@),
        decreases args.len() - i,
    {
        let text = args[i].show(names);
        proof {
            assert(args@.take(i as int + 1).drop_last() =~= args@.take(i as int));
            assert(views(texts@.push(text)) =~= views(texts@).push(text@));
        }
        texts.push(text);
        i += 1;
    }
    assert(args@.take(i as int) =~= args@);
    texts
}

/// Adds the arms of a match.
fn push_arms(out: &mut String, arms: &Vec<MatchArm>, names: &Interner)
    ensures
        final(out)@ == old(out)@ + arms_text(arms@, names@),
    decreases *arms,
{
    let mut i: usize = 0;
    assert(out@ =~= old(out)@ + arms_text(arms@.take(0), names@));
    while i < arms.len()
        invariant
            i <= arms.len(),
            out@ == old(out)@ + arms_text(arms@.take(i as int), names@),
        decreases arms.len() - i,
    {
        out.append("    ");
        out.append(arms[i].show(names).as_str());
        out.append(",\n");
        proof {
            assert(arms@.take(i as int + 1).drop_last() =~= arms@.take(i as int));
            assert(arms@.take(i as int + 1).last() == arms@[i as int]);
            assert(out@ =~= old(out)@ + arms_text(arms@.take(i as int + 1), names@));
        }
        i += 1;
    }
    assert(arms@.take(i as int) =~= arms@);
}

/// Adds the fields of a struct.
fn push_fields(out: &mut String, fields: &Vec<Field>, names: &Interner)
    ensures
        final(out)@ == old(out)@ + fields_text(fields@, names@),
{
    let mut i: usize = 0;
    assert(out@ =~= old(out)@ + fields_text(fields@.take(0), names@));
    while i < fields.len()
        invariant
            i <= fields.len(),
            out@ == old(out)@ + fields_text(fields@.take(i as int), names@),
        decreases fields.len() - i,
    {
        out.append("    ");
        out.append(fields[i].show(names).as_str());
        out.append(",\n");
        proof {
            assert(fields@.take(i as int + 1).drop_last() =~= fields@.take(i as int));
            assert(fields@.take(i as int + 1).last() == fields@[i as int]);
            assert(out@ =~= old(out)@ + fields_text(fields@.take(i as int + 1), names@));
        }
        i += 1;
    }
    assert(fields@.take(i as int) =~= fields@);
}

/// Adds the variants of an enum.
fn push_variants(out: &mut String, variants: &Vec<Variant>, names: &Interner)
    ensures
        final(out)@ == old(out)@ + variants_text(variants@, names@),
{
    let mut i: usize = 0;
    assert(out@ =~= old(out)@ + variants_text(variants@.take(0), names@));
    while i < variants.len()
        invariant
            i <= variants.len(),
            out@ == old(out)@ + variants_text(variants@.take(i as int), names@),
        decreases variants.len() - i,
    {
        out.append("    ");
        out.append(variants[i].show(names).as_str());
        out.append(",\n");
        proof {
            assert(variants@.take(i as int + 1).drop_last() =~= variants@.take(i as int));
            assert(variants@.take(i as int + 1).last() == variants@[i as int]);
            assert(out@ =~= old(out)@ + variants_text(variants@.take(i as int + 1), names@));
        }
        i += 1;
    }
    assert(variants@.take(i as int) =~= variants@);
}

/// Adds the types of the arguments of a variant.
fn push_variant_args(out: &mut String, args: &Vec<Type>, names: &Interner)
    ensures
        final(out)@ == old(out)@ + variant_args_text(args@, names@),
{
    let mut i: usize = 0;
    assert(out@ =~= old(out)@ + variant_args_text(args@.take(0), names@));
    while i < args.len()
        invariant
            i <= args.len(),
            out@ == old(out)@ + variant_args_text(args@.take(i as int), names@),
        decreases args.len() - i,
    {
        out.append(args[i].val.show(names).as_str());
        out.append(", ");
        proof {
            assert(args@.take(i as int + 1).drop_last() =~= args@.take(i as int));
            assert(out@ =~= old(out)@ + variant_args_text(args@.take(i as int + 1), names@));
        }
        i += 1;
    }
    assert(args@.take(i as int) =~= args@);
}

/// Adds the lines of the statements.
fn push_stmts_lines(out: &mut String, stmts: &Vec<Stmt>, names: &Interner)
    ensures
        final(out)@ == old(out)@ + stmts_lines(stmts@, names@),
    decreases *stmts,
{
    let mut i: usize = 0;
    assert(out@ =~= old(out)@ + stmts_lines(stmts@.take(0), names@));
    while i < stmts.len()
        invariant
            i <= stmts.len(),
            out@ == old(out)@ + stmts_lines(stmts@.take(i as int), names@),
        decreases stmts.len() - i,
    {
        let text = stmts[i].val.show(names);
        push_each_line(out, text.as_str(), "    ", ";");
        proof {
            assert(stmts@.take(i as int + 1).drop_last() =~= stmts@.take(i as int));
            assert(out@ =~= old(out)@ + stmts_lines(stmts@.take(i as int + 1), names@));
        }
        i += 1;
    }
    assert(stmts@.take(i as int) =~= stmts@);
}

/// Adds the lines of the items, each line after `prefix`.
fn push_items_lines(out: &mut String, items: &Vec<Item>, prefix: &str, names: &Interner)
    ensures
        final(out)@ == old(out)@ + items_lines(items@, prefix@, names@),
    decreases *items,
{
    let mut i: usize = 0;
    assert(out@ =~= old(out)@ + items_lines(items@.take(0), prefix@, names@));
    while i < items.len()
        invariant
            i <= items.len(),
            out@ == old(out)@ + items_lines(items@.take(i as int), prefix@, names@),
        decreases items.len() - i,
    {
        let text = items[i].val.show(names);
        push_each_line(out, text.as_str(), prefix, nothing());
        proof {
            assert(items@.take(i as int + 1).drop_last() =~= items@.take(i as int));
            assert(out@ =~= old(out)@ + items_lines(items@.take(i as int + 1), prefix@, names@));
        }
        i += 1;
    }
    assert(items@.take(i as int) =~= items@);
}

/// Adds the type parameters of an item.
fn push_type_params(out: &mut String, tps: &Vec<Ident>, names: &Interner)
    ensures
        final(out)@ == old(out)@ + type_params_text(tps@, names@),
{
    if tps.len() > 0 {
        out.append("<");
        out.append(list(&show_idents(tps, names)).as_str());
        out.append(">");
    }
    assert(out@ =~= old(out)@ + type_params_text(tps@, names@));
}

impl MatchArm {
    /// The arm as text.
    pub fn show(&self, names: &Interner) -> (out: String)
        ensures
            out@ == arm_text(*self, names@),
        decreases *self,
    {
        let mut out = self.pat.val.show(names);
        out.append(" => ");
        out.append(self.body.val.show(names).as_str());
        out
    }
}

impl ExprNode {
    /// The expression as text.
    pub fn show(&self, names: &Interner) -> (out: String)
        ensures
            out@ == expr_text(*self, names@),
        decreases *self,
    {
        let mut out = String::new();
        match self {
            ExprNode::UnitExpr => {
                out.append("()");
            },
            ExprNode::LitExpr(lit) => {
                out.append(lit.val.show().as_str());
            },
            ExprNode::TupleExpr(parts) => {
                out.append("(");
                out.append(list(&show_exprs(parts, names)).as_str());
                out.append(")");
            },
            ExprNode::IdentExpr(ident) => {
                out.append(ident.val.show(names).as_str());
            },
            ExprNode::PathExpr(path) => {
                out.append(path.val.show(names).as_str());
            },
            ExprNode::GroupExpr(inner) => {
                out.append("(");
                out.append(inner.val.show(names).as_str());
                out.append(")");
            },
            ExprNode::BinOpExpr(op, left, right) => {
                out.append("(");
                out.append(left.val.show(names).as_str());
                out.append(op.val.show());
                out.append(right.val.show(names).as_str());
                out.append(")");
            },
            ExprNode::UnOpExpr(op, operand) => {
                out.append("(");
                out.append(op.val.show());
                out.append(operand.val.show(names).as_str());
                out.append(")");
            },
            ExprNode::IndexExpr(array, index) => {
                out.append(array.val.show(names).as_str());
                out.append("[");
                out.append(index.val.show(names).as_str());
                out.append("]");
            },
            ExprNode::DotExpr(object, field) => {
                out.append(object.val.show(names).as_str());
                out.append(".");
                push_name(&mut out, *field, names);
            },
            ExprNode::ArrowExpr(object, field) => {
                out.append(object.val.show(names).as_str());
                out.append("->");
                push_name(&mut out, *field, names);
            },
            ExprNode::AssignExpr(target, value) => {
                out.append("(");
                out.append(target.val.show(names).as_str());
                out.append("=");
                out.append(value.val.show(names).as_str());
                out.append(")");
            },
            ExprNode::CallExpr(callee, args) => {
                out.append(callee.val.show(names).as_str());
                out.append("(");
                out.append(list(&show_exprs(args, names)).as_str());
                out.append(")");
            },
            ExprNode::CastExpr(value, t) => {
                out.append("(");
                out.append(value.val.show(names).as_str());
                out.append(" as ");
                out.append(t.val.show(names).as_str());
                out.append(")");
            },
            ExprNode::IfExpr(cond, on_true, on_false) => {
                out.append("if ");
                out.append(cond.val.show(names).as_str());
                out.append(" {\n    ");
                out.append(on_true.show(names).as_str());
                out.append("} else {\n    ");
                out.append(on_false.show(names).as_str());
                out.append("}");
            },
            ExprNode::BlockExpr(block) => {
                out.append(block.show(names).as_str());
            },
            ExprNode::ReturnExpr(value) => {
                out.append("return ");
                out.append(value.val.show(names).as_str());
            },
            ExprNode::WhileExpr(cond, body) => {
                out.append("while ");
                out.append(cond.val.show(names).as_str());
                out.append(" ");
                out.append(body.show(names).as_str());
            },
            ExprNode::ForExpr(init, cond, step, body) => {
                out.append("for (");
                out.append(init.val.show(names).as_str());
                out.append(";");
                out.append(cond.val.show(names).as_str());
                out.append(";");
                out.append(step.val.show(names).as_str());
                out.append(") ");
                out.append(body.show(names).as_str());
            },
            ExprNode::MatchExpr(subject, arms) => {
                out.append("match ");
                out.append(subject.val.show(names).as_str());
                out.append(" {\n");
                push_arms(&mut out, arms, names);
                out.append("}");
            },
        }
        assert(out@ =~= expr_text(*self, names@));
        out
    }
}

impl StmtNode {
    /// The statement as text.
    pub fn show(&self, names: &Interner) -> (out: String)
        ensures
            out@ == stmt_text(*self, names@),
        decreases *self,
    {
        let mut out = String::new();
        match self {
            StmtNode::LetStmt(pat, init) => {
                out.append("let ");
                out.append(pat.val.show(names).as_str());
                match init {
                    Some(e) => {
                        out.append(" = ");
                        out.append(e.val.show(names).as_str());
                    },
                    None => {},
                }
                out.append(";");
            },
            StmtNode::ExprStmt(e) => {
                out.append(e.val.show(names).as_str());
            },
            StmtNode::SemiStmt(e) => {
                out.append(e.val.show(names).as_str());
                out.append(";");
            },
        }
        assert(out@ =~= stmt_text(*self, names@));
        out
    }
}

impl Block {
    /// The block as text.
    pub fn show(&self, names: &Interner) -> (out: String)
        ensures
            out@ == block_text(*self, names@),
        decreases *self,
    {
        let mut out = String::from_str("{\n");
        push_items_lines(&mut out, &self.items, "    ", names);
        push_stmts_lines(&mut out, &self.stmts, names);
        match &self.expr {
            Some(e) => {
                let text = e.val.show(names);
                push_each_line(&mut out, text.as_str(), "    ", nothing());
            },
            None => {},
        }
        out.append("}");
        assert(out@ =~= block_text(*self, names@));
        out
    }
}

impl FuncArg {
    /// The function parameter as text.
    pub fn show(&self, names: &Interner) -> (out: String)
        ensures
            out@ == func_arg_text(*self, names@),
    {
        let mut out = self.ident.val.show(names);
        out.append(": ");
        out.append(self.argtype.val.show(names).as_str());
        out
    }
}

impl Field {
    /// The field as text.
    pub fn show(&self, names: &Interner) -> (out: String)
        ensures
            out@ == field_text(*self, names@),
    {
        let mut out = String::new();
        push_name(&mut out, self.name, names);
        out.append(": ");
        out.append(self.fldtype.val.show(names).as_str());
        assert(out@ =~= field_text(*self, names@));
        out
    }
}

impl Variant {
    /// The variant as text.
    pub fn show(&self, names: &Interner) -> (out: String)
        ensures
            out@ == variant_text(*self, names@),
    {
        let mut out = self.ident.val.show(names);
        out.append("(");
        push_variant_args(&mut out, &self.args, names);
        out.append(")");
        assert(out@ =~= variant_text(*self, names@));
        out
    }
}

impl ItemNode {
    /// The item as text.
    pub fn show(&self, names: &Interner) -> (out: String)
        ensures
            out@ == item_text(*self, names@),
        decreases *self,
    {
        let mut out = String::new();
        match self {
            ItemNode::FuncItem(ident, args, ret, body, tps) => {
                out.append("fn ");
                out.append(ident.val.show(names).as_str());
                push_type_params(&mut out, tps, names);
                out.append("(");
                out.append(list(&show_func_args(args, names)).as_str());
                out.append(") -> ");
                out.append(ret.val.show(names).as_str());
                out.append(" ");
                out.append(body.show(names).as_str());
            },
            ItemNode::StructItem(ident, fields, tps) => {
                out.append("struct ");
                out.append(ident.val.show(names).as_str());
                push_type_params(&mut out, tps, names);
                out.append(" {\n");
                push_fields(&mut out, fields, names);
                out.append("}");
            },
            ItemNode::EnumItem(ident, variants, tps) => {
                out.append("enum ");
                out.append(ident.val.show(names).as_str());
                push_type_params(&mut out, tps, names);
                out.append(" {\n");
                push_variants(&mut out, variants, names);
                out.append("}");
            },
        }
        assert(out@ =~= item_text(*self, names@));
        out
    }
}

impl Module {
    /// The source file as text.
    pub fn show(&self, names: &Interner) -> (out: String)
        ensures
            out@ == module_text(*self, names@),
    {
        let mut out = String::new();
        push_items_lines(&mut out, &self.items, nothing(), names);
        assert(out@ =~= module_text(*self, names@));
        out
    }
}

/// A node is shown as its payload is; its id is not shown.
impl WithId<TypeNode> {
    /// The type as text.
    pub fn show(&self, names: &Interner) -> (out: String)
        ensures
            out@ == type_text(self.val, names@),
    {
        self.val.show(names)
    }
}

impl WithId<PatNode> {
    /// The pattern as text.
    pub fn show(&self, names: &Interner) -> (out: String)
        ensures
            out@ == pat_text(self.val, names@),
    {
        self.val.show(names)
    }
}

impl WithId<ExprNode> {
    /// The expression as text.
    pub fn show(&self, names: &Interner) -> (out: String)
        ensures
            out@ == expr_text(self.val, names@),
    {
        self.val.show(names)
    }
}

impl WithId<StmtNode> {
    /// The statement as text.
    pub fn show(&self, names: &Interner) -> (out: String)
        ensures
            out@ == stmt_text(self.val, names@),
    {
        self.val.show(names)
    }
}

impl WithId<ItemNode> {
    /// The item as text.
    pub fn show(&self, names: &Interner) -> (out: String)
        ensures
            out@ == item_text(self.val, names@),
    {
        self.val.show(names)
    }
}

impl WithId<IdentNode> {
    /// The identifier as text.
    pub fn show(&self, names: &Interner) -> (out: String)
        ensures
            out@ == ident_text(self.val, names@),
    {
        self.val.show(names)
    }
}

impl WithId<PathNode> {
    /// The path as text.
    pub fn show(&self, names: &Interner) -> (out: String)
        ensures
            out@ == path_text(self.val, names@),
    {
        self.val.show(names)
    }
}

impl WithId<LitNode> {
    /// The literal as text.
    pub fn show(&self) -> (out: String)
        ensures
            out@ == lit_text(self.val),
    {
        self.val.show()
    }
}

impl WithId<BinOpNode> {
    /// The operator as text.
    pub fn show(&self) -> (out: &'static str)
        ensures
            out@ == bin_op_text(self.val),
    {
        self.val.show()
    }
}

impl WithId<UnOpNode> {
    /// The operator as text.
    pub fn show(&self) -> (out: &'static str)
        ensures
            out@ == un_op_text(self.val),
    {
        self.val.show()
    }
}

} // verus!