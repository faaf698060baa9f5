//! GraphQL documents as plain data. `apollo-compiler` parses the text; the
//! functions here only move its syntax tree into these types.

use vstd::prelude::*;
use apollo_compiler::ast as gql;
use apollo_compiler::ast::Value as GqlValue;

verus! {

#[verifier::external_type_specification]
#[verifier::external_body]
pub struct ExGqlDocument(gql::Document);

#[verifier::external_type_specification]
#[verifier::external_body]
pub struct ExGqlDefinition(gql::Definition);

#[verifier::external_type_specification]
#[verifier::external_body]
pub struct ExGqlOperationDefinition(gql::OperationDefinition);

#[verifier::external_type_specification]
#[verifier::external_body]
pub struct ExGqlVariableDefinition(gql::VariableDefinition);

#[verifier::external_type_specification]
#[verifier::external_body]
pub struct ExGqlSelection(gql::Selection);

#[verifier::external_type_specification]
#[verifier::external_body]
pub struct ExGqlField(gql::Field);

#[verifier::external_type_specification]
#[verifier::external_body]
pub struct ExGqlArgument(gql::Argument);

#[verifier::external_type_specification]
#[verifier::external_body]
pub struct ExGqlValue(gql::Value);

#[verifier::external_type_specification]
#[verifier::external_body]
pub struct ExGqlDirective(gql::Directive);

#[verifier::external_type_specification]
#[verifier::external_body]
pub struct ExGqlEnumTypeDefinition(gql::EnumTypeDefinition);

#[verifier::external_type_specification]
#[verifier::external_body]
pub struct ExGqlObjectTypeDefinition(gql::ObjectTypeDefinition);

#[verifier::external_type_specification]
#[verifier::external_body]
pub struct ExGqlFieldDefinition(gql::FieldDefinition);

/// `query`, `mutation` or `subscription`.
#[derive(PartialEq, Eq, Structural, Clone, Copy, Debug)]
pub enum OpType {
    Query,
    Mutation,
    Subscription,
}

/// A literal value in a document. Numbers keep their source text.
#[derive(Debug)]
pub enum GValue {
    Null,
    Enum(String),
    Variable(String),
    Str(String),
    Float(String),
    Int(String),
    Boolean(bool),
    List(Vec<GValue>),
    Object(Vec<(String, GValue)>),
}

#[derive(Debug)]
pub struct Arg {
    pub name: String,
    pub value: GValue,
}

#[derive(Debug)]
pub struct Dir {
    pub name: String,
    pub arguments: Vec<Arg>,
}

#[derive(Debug)]
pub struct FieldSel {
    pub alias: Option<String>,
    pub name: String,
    pub arguments: Vec<Arg>,
    pub selection_set: Vec<Sel>,
}

#[derive(Debug)]
pub struct InlineFrag {
    pub type_condition: Option<String>,
    pub selection_set: Vec<Sel>,
}

#[derive(Debug)]
pub enum Sel {
    Field(FieldSel),
    /// A `...Name` spread, by fragment name.
    FragmentSpread(String),
    InlineFragment(InlineFrag),
}

/// `$name: Type = default`; the type is kept as its GraphQL text.
#[derive(Debug)]
pub struct VarDef {
    pub name: String,
    pub ty: String,
    pub default_value: Option<GValue>,
}

#[derive(Debug)]
pub struct Operation {
    pub operation_type: OpType,
    pub name: Option<String>,
    pub variables: Vec<VarDef>,
    pub selection_set: Vec<Sel>,
    /// Its position among the document's definitions.
    pub position: usize,
}

#[derive(Debug)]
pub struct EnumValueDef {
    pub value: String,
    pub directives: Vec<Dir>,
}

#[derive(Debug)]
pub struct EnumDef {
    pub name: String,
    pub values: Vec<EnumValueDef>,
}

#[derive(Debug)]
pub struct FieldDef {
    pub name: String,
    pub directives: Vec<Dir>,
}

#[derive(Debug)]
pub struct ObjectDef {
    pub name: String,
    pub directives: Vec<Dir>,
    pub fields: Vec<FieldDef>,
}

/// A top-level definition; kinds the router never reads are `Other`.
#[derive(Debug)]
pub enum TopDef {
    Operation(Operation),
    EnumType(EnumDef),
    ObjectType(ObjectDef),
    Other,
}

/// What a document was parsed from, kept together and set only by
/// [`parse_document`]: the text, the path, the syntax tree, and each
/// definition's variable and top-level selection counts when it is an
/// operation.
#[derive(Debug)]
pub struct Syntax {
    tree: gql::Document,
    source: String,
    path: String,
    shapes: Vec<Option<(usize, usize)>>,
}

impl Syntax {
    /// The text the tree was parsed from.
    pub closed spec fn text(self) -> Seq<char> {
        self.source@
    }

    /// The path its diagnostics are attributed to.
    pub closed spec fn path(self) -> Seq<char> {
        self.path@
    }

    /// The variable and top-level selection counts of the tree's definition
    /// at position `k`, when it is an operation.
    pub closed spec fn op_shape(self, k: int) -> Option<(usize, usize)> {
        if 0 <= k < self.shapes@.len() {
            self.shapes@[k]
        } else {
            None
        }
    }
}

/// A parsed document: its definitions as plain data, and what it was
/// parsed from.
#[derive(Debug)]
pub struct Doc {
    pub definitions: Vec<TopDef>,
    pub syntax: Syntax,
}

impl Doc {
    /// The text the document was parsed from.
    pub open spec fn source_text(self) -> Seq<char> {
        self.syntax.text()
    }

    /// The path its diagnostics are attributed to.
    pub open spec fn source_path(self) -> Seq<char> {
        self.syntax.path()
    }

    /// An operation definition matches the syntax tree at its position.
    pub open spec fn fits(self, d: TopDef) -> bool {
        match d {
            TopDef::Operation(op) => self.syntax.op_shape(op.position as int) == Some(
                (op.variables.len(), op.selection_set.len()),
            ),
            _ => true,
        }
    }

    /// Every operation definition matches the syntax tree, as parsing leaves
    /// it.
    pub open spec fn wf(self) -> bool {
        forall|k: int| 0 <= k < self.definitions@.len() ==> self.fits(#[trigger] self.definitions@[k])
    }
}

/// The plain definitions of the document that
/// `apollo_compiler::ast::Document::parse(source, path)` yields, moved as
/// [`parse_document`] moves them (each operation numbered by its position),
/// or the rendered diagnostics. The syntax tree itself, which carries a file
/// id drawn afresh by each parse, is not part of this value.
pub uninterp spec fn graphql_parse(source: Seq<char>, path: Seq<char>) -> Result<Seq<TopDef>, Seq<char>>;

pub open spec fn parse_outcome(r: Result<Doc, String>) -> Result<Seq<TopDef>, Seq<char>> {
    match r {
        Ok(d) => Ok(d.definitions@),
        Err(e) => Err(e@),
    }
}

/// Parses `source` with `apollo_compiler::ast::Document::parse`, naming
/// diagnostics after `path`. On failure the error is the `Display` text of
/// the diagnostic list. On success the document keeps `source`, `path` and
/// the tree, and its definitions are moved one for one from the tree's, so
/// each operation's variable and selection counts are the tree's.
#[verifier::external_body]
pub fn parse_document(source: &str, path: &str) -> (r: Result<Doc, String>)
    ensures
        parse_outcome(r) == graphql_parse(source@, path@),
        r matches Ok(d) ==> d.source_text() == source@ && d.source_path() == path@ && d.wf(),
{
    match gql::Document::parse(source, path) {
        Ok(tree) => Ok(from_document(tree, source, path)),
        Err(e) => Err(e.errors.to_string()),
    }
}

/// The outcome of `validate_standalone_executable` on the document that
/// `Document::parse(source, path)` yields: `None` when it passes, else the
/// `Display` text of its diagnostics (which names `path`, not the parse's
/// file id).
pub uninterp spec fn standalone_validation(source: Seq<char>, path: Seq<char>) -> Option<Seq<char>>;

pub open spec fn opt_text_view(o: Option<String>) -> Option<Seq<char>> {
    match o {
        Some(t) => Some(t@),
        None => None,
    }
}

/// Runs `validate_standalone_executable` on the document's syntax tree,
/// which [`parse_document`] parsed from the document's text and path.
#[verifier::external_body]
pub fn standalone_diagnostics(doc: &Doc) -> (r: Option<String>)
    ensures
        opt_text_view(r) == standalone_validation(doc.source_text(), doc.source_path()),
{
    match doc.syntax.tree.validate_standalone_executable() {
        Ok(()) => None,
        Err(d) => Some(d.to_string()),
    }
}

/// The text that `Document::serialize` gives for a document holding one
/// operation: the type, name and directives of the operation at position
/// `at` of the document parsed from `source` under `path`, its variable
/// definitions at the positions `variables` and its top-level selections at
/// the positions `selections`.
pub uninterp spec fn projection_text(
    source: Seq<char>,
    path: Seq<char>,
    at: usize,
    variables: Seq<usize>,
    selections: Seq<usize>,
) -> Seq<char>;

/// Builds that document from the syntax tree's operation at `at` and
/// serializes it with `Document::serialize`.
#[verifier::external_body]
pub fn serialize_projection(doc: &Doc, at: usize, variables: &Vec<usize>, selections: &Vec<usize>) -> (r: String)
    requires
        doc.syntax.op_shape(at as int) matches Some((nv, ns)) && (forall|i: int|
            0 <= i < variables@.len() ==> variables@[i] < nv) && (forall|i: int|
            0 <= i < selections@.len() ==> selections@[i] < ns),
    ensures
        r@ == projection_text(doc.source_text(), doc.source_path(), at, variables@, selections@),
{
    let gql::Definition::OperationDefinition(src) = &doc.syntax.tree.definitions[at] else { return String::new() };
    let new_op = gql::OperationDefinition {
        operation_type: src.operation_type,
        name: src.name.clone(),
        variables: variables.iter().map(|i| src.variables[*i].clone()).collect(),
        directives: src.directives.clone(),
        selection_set: selections.iter().map(|i| src.selection_set[*i].clone()).collect(),
    };
    let definitions = vec![gql::Definition::OperationDefinition(apollo_compiler::Node::new(new_op))];
    gql::Document { definitions, ..Default::default() }.serialize().to_string()
}

/// Moves a parsed syntax tree into a [`Doc`], one definition for each of its
/// definitions, in order, with each operation's counts.
#[verifier::external_body]
fn from_document(tree: gql::Document, source: &str, path: &str) -> Doc {
    let definitions = tree.definitions.iter().enumerate().map(|(k, d)| from_definition(k, d)).collect();
    let shapes = tree.definitions.iter().map(|d| match d {
        gql::Definition::OperationDefinition(op) => Some((op.variables.len(), op.selection_set.len())),
        _ => None,
    }).collect();
    Doc { definitions, syntax: Syntax { tree, source: source.to_owned(), path: path.to_owned(), shapes } }
}

/// Moves a top-level definition into a [`TopDef`]; kinds the router never
/// reads become `Other`.
#[verifier::external_body]
fn from_definition(k: usize, d: &gql::Definition) -> TopDef {
    match d {
        gql::Definition::OperationDefinition(op) => TopDef::Operation(from_operation(k, op)),
        gql::Definition::EnumTypeDefinition(e) => TopDef::EnumType(from_enum_type(e)),
        gql::Definition::ObjectTypeDefinition(o) => TopDef::ObjectType(from_object_type(o)),
        _ => TopDef::Other,
    }
}

/// Moves an operation definition found at position `k`.
#[verifier::external_body]
fn from_operation(k: usize, op: &gql::OperationDefinition) -> Operation {
    Operation {
        operation_type: match op.operation_type {
            gql::OperationType::Query => OpType::Query,
            gql::OperationType::Mutation => OpType::Mutation,
            gql::OperationType::Subscription => OpType::Subscription,
        },
        name: op.name.as_ref().map(|n| n.to_string()),
        variables: op.variables.iter().map(|v| from_variable(v)).collect(),
        selection_set: op.selection_set.iter().map(from_selection).collect(),
        position: k,
    }
}

/// Moves a variable definition; its type is kept as its GraphQL text.
#[verifier::external_body]
fn from_variable(v: &gql::VariableDefinition) -> VarDef {
    VarDef {
        name: v.name.to_string(),
        ty: v.ty.to_string(),
        default_value: v.default_value.as_ref().map(|d| from_value(d)),
    }
}

/// Moves a selection.
#[verifier::external_body]
fn from_selection(s: &gql::Selection) -> Sel {
    match s {
        gql::Selection::Field(f) => Sel::Field(from_field(f)),
        gql::Selection::FragmentSpread(f) => Sel::FragmentSpread(f.fragment_name.to_string()),
        gql::Selection::InlineFragment(f) => Sel::InlineFragment(InlineFrag {
            type_condition: f.type_condition.as_ref().map(|n| n.to_string()),
            selection_set: f.selection_set.iter().map(from_selection).collect(),
        }),
    }
}

/// Moves a field selection.
#[verifier::external_body]
fn from_field(f: &gql::Field) -> FieldSel {
    FieldSel {
        alias: f.alias.as_ref().map(|n| n.to_string()),
        name: f.name.to_string(),
        arguments: f.arguments.iter().map(|a| from_argument(a)).collect(),
        selection_set: f.selection_set.iter().map(from_selection).collect(),
    }
}

/// Moves an argument.
#[verifier::external_body]
fn from_argument(a: &gql::Argument) -> Arg {
    Arg { name: a.name.to_string(), value: from_value(&a.value) }
}

/// Moves a literal value; numbers keep their source text.
#[verifier::external_body]
fn from_value(v: &GqlValue) -> GValue {
    match v {
        GqlValue::Null => GValue::Null,
        GqlValue::Enum(n) => GValue::Enum(n.to_string()),
        GqlValue::Variable(n) => GValue::Variable(n.to_string()),
        GqlValue::String(s) => GValue::Str(s.clone()),
        GqlValue::Float(f) => GValue::Float(f.to_string()),
        GqlValue::Int(i) => GValue::Int(i.to_string()),
        GqlValue::Boolean(b) => GValue::Boolean(*b),
        GqlValue::List(l) => GValue::List(l.iter().map(|x| from_value(x)).collect()),
        GqlValue::Object(o) => GValue::Object(o.iter().map(|(k, x)| (k.to_string(), from_value(x))).collect()),
    }
}

/// Moves a directive.
#[verifier::external_body]
fn from_directive(d: &gql::Directive) -> Dir {
    Dir {
        name: d.name.to_string(),
        arguments: d.arguments.iter().map(|a| from_argument(a)).collect(),
    }
}

/// Moves an enum type definition.
#[verifier::external_body]
fn from_enum_type(e: &gql::EnumTypeDefinition) -> EnumDef {
    EnumDef {
        name: e.name.to_string(),
        values: e.values.iter().map(|v| EnumValueDef {
            value: v.value.to_string(),
            directives: v.directives.iter().map(|d| from_directive(d)).collect(),
        }).collect(),
    }
}

/// Moves an object type definition.
#[verifier::external_body]
fn from_object_type(o: &gql::ObjectTypeDefinition) -> ObjectDef {
    ObjectDef {
        name: o.name.to_string(),
        directives: o.directives.iter().map(|d| from_directive(d)).collect(),
        fields: o.fields.iter().map(|f| from_field_definition(f)).collect(),
    }
}

/// Moves a field definition.
#[verifier::external_body]
fn from_field_definition(f: &gql::FieldDefinition) -> FieldDef {
    FieldDef {
        name: f.name.to_string(),
        directives: f.directives.iter().map(|d| from_directive(d)).collect(),
    }
}

} // verus!
