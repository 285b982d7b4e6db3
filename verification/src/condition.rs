//! Condition expressions: a recursive predicate tree built by a fluent
//! builder and rendered to the store's textual language together with the
//! alias table (`#name` -> field) and the value-placeholder table
//! (`:token` -> attribute value).
//!
//! Placeholder allocation differs by predicate kind, deliberately:
//! `attribute_type` literals use `:type<CODE>` (deduplicated by type code),
//! `begins_with` literals use `:begins_with_<digest>` (deduplicated by
//! prefix), and all other literals draw a fresh `:value<N>` from the
//! caller's counter, never deduplicated.
use vstd::prelude::*;

use crate::attr::{AttrNameTable, AttrValueTable, AttributeType, AttributeValue};
use crate::text::{
    dec_of, lemma_dec_of_injective, lemma_prefix_cancel, u64_to_dec,
};
use crate::ValueIdGen;

verus! {

/// The digest that names a `begins_with` prefix: a function of the prefix
/// characters alone, so equal prefixes share one placeholder.
pub uninterp spec fn md5_hex_of(s: Seq<char>) -> Seq<char>;

/// Relies on md5::compute: the digest depends on the input bytes alone, and
/// its `{:x}` rendering is 32 lowercase hex digits.
#[verifier::external_body]
fn md5_hex(s: &str) -> (r: String)
    ensures
        r@ == md5_hex_of(s@),
        r@.len() == 32,
{
    format!("{:x}", md5::compute(s.as_bytes()))
}

/// The name placeholder registered for a field: `#` + field name.
pub open spec fn alias_of(field: Seq<char>) -> Seq<char> {
    "#"@ + field
}

/// The counter-based value placeholder for allocation number `n`.
pub open spec fn value_placeholder(n: nat) -> Seq<char> {
    ":value"@ + dec_of(n)
}

/// The deduplicated value placeholder of an `attribute_type` literal.
pub open spec fn type_placeholder(code: Seq<char>) -> Seq<char> {
    ":type"@ + code
}

/// The deduplicated value placeholder of a `begins_with` literal.
pub open spec fn begins_with_placeholder(digest: Seq<char>) -> Seq<char> {
    ":begins_with_"@ + digest
}

/// A comparison operator between two operands.
#[derive(Debug, Clone, Copy, PartialEq, Eq, Structural)]
pub enum CmpOp {
    Eq,
    Ne,
    Lt,
    Le,
    Gt,
    Ge,
}

impl CmpOp {
    pub open spec fn spec_token(self) -> Seq<char> {
        match self {
            CmpOp::Eq => "="@,
            CmpOp::Ne => "<>"@,
            CmpOp::Lt => "<"@,
            CmpOp::Le => "<="@,
            CmpOp::Gt => ">"@,
            CmpOp::Ge => ">="@,
        }
    }

    pub fn token(self) -> (r: &'static str)
        ensures
            r@ == self.spec_token(),
    {
        match self {
            CmpOp::Eq => "=",
            CmpOp::Ne => "<>",
            CmpOp::Lt => "<",
            CmpOp::Le => "<=",
            CmpOp::Gt => ">",
            CmpOp::Ge => ">=",
        }
    }
}

/// One side of a comparison: an attribute reference or a literal value.
pub enum Operand {
    FieldRef { field: String },
    ValueLit { value: AttributeValue },
}

/// The predicate tree of one condition.
pub enum ConditionNode {
    AttrExists { field: String },
    AttrNotExists { field: String },
    AttrType { field: String, code: String },
    BeginsWith { field: String, digest: String, prefix: String },
    Cmp { op: CmpOp, left: Operand, right: Operand },
    Not { inner: Box<ConditionNode> },
    And { left: Box<ConditionNode>, right: Box<ConditionNode> },
    Or { left: Box<ConditionNode>, right: Box<ConditionNode> },
}

/// How many counter-based placeholders the operand draws.
pub open spec fn operand_vals(o: Operand) -> nat {
    match o {
        Operand::FieldRef { .. } => 0,
        Operand::ValueLit { .. } => 1,
    }
}

/// How many counter-based placeholders rendering `n` draws.
pub open spec fn val_count(n: ConditionNode) -> nat
    decreases n,
{
    match n {
        ConditionNode::AttrExists { .. } => 0,
        ConditionNode::AttrNotExists { .. } => 0,
        ConditionNode::AttrType { .. } => 0,
        ConditionNode::BeginsWith { .. } => 0,
        ConditionNode::Cmp { left, right, .. } => operand_vals(left) + operand_vals(right),
        ConditionNode::Not { inner } => val_count(*inner),
        ConditionNode::And { left, right } => val_count(*left) + val_count(*right),
        ConditionNode::Or { left, right } => val_count(*left) + val_count(*right),
    }
}

/// The token an operand renders to, with `c` the counter at its position.
pub open spec fn operand_text(o: Operand, c: nat) -> Seq<char> {
    match o {
        Operand::FieldRef { field } => alias_of(field@),
        Operand::ValueLit { .. } => value_placeholder(c),
    }
}

/// The expression text of `n`, with `c` the counter at its position.
/// `Not` renders `NOT (inner)`; `And`/`Or` render `left KEYWORD (right)`,
/// so chained conjunctions nest on the right.
pub open spec fn spec_render(n: ConditionNode, c: nat) -> Seq<char>
    decreases n,
{
    match n {
        ConditionNode::AttrExists { field } => "attribute_exists("@ + alias_of(field@) + ")"@,
        ConditionNode::AttrNotExists { field } => "attribute_not_exists("@ + alias_of(field@)
            + ")"@,
        ConditionNode::AttrType { field, code } => "attribute_type("@ + alias_of(field@) + ", "@
            + type_placeholder(code@) + ")"@,
        ConditionNode::BeginsWith { field, digest, .. } => "begins_with("@ + alias_of(field@)
            + ", "@ + begins_with_placeholder(digest@) + ")"@,
        ConditionNode::Cmp { op, left, right } => operand_text(left, c) + " "@ + op.spec_token()
            + " "@ + operand_text(right, c + operand_vals(left)),
        ConditionNode::Not { inner } => "NOT ("@ + spec_render(*inner, c) + ")"@,
        ConditionNode::And { left, right } => spec_render(*left, c) + " AND ("@ + spec_render(
            *right,
            c + val_count(*left),
        ) + ")"@,
        ConditionNode::Or { left, right } => spec_render(*left, c) + " OR ("@ + spec_render(
            *right,
            c + val_count(*left),
        ) + ")"@,
    }
}

pub open spec fn operand_names(o: Operand) -> Map<Seq<char>, String> {
    match o {
        Operand::FieldRef { field } => Map::empty().insert(alias_of(field@), field),
        Operand::ValueLit { .. } => Map::empty(),
    }
}

/// The alias table of `n`: one entry per referenced field.
pub open spec fn spec_names(n: ConditionNode) -> Map<Seq<char>, String>
    decreases n,
{
    match n {
        ConditionNode::AttrExists { field } => Map::empty().insert(alias_of(field@), field),
        ConditionNode::AttrNotExists { field } => Map::empty().insert(alias_of(field@), field),
        ConditionNode::AttrType { field, .. } => Map::empty().insert(alias_of(field@), field),
        ConditionNode::BeginsWith { field, .. } => Map::empty().insert(alias_of(field@), field),
        ConditionNode::Cmp { left, right, .. } => operand_names(left).union_prefer_right(
            operand_names(right),
        ),
        ConditionNode::Not { inner } => spec_names(*inner),
        ConditionNode::And { left, right } => spec_names(*left).union_prefer_right(
            spec_names(*right),
        ),
        ConditionNode::Or { left, right } => spec_names(*left).union_prefer_right(
            spec_names(*right),
        ),
    }
}

pub open spec fn operand_values(o: Operand, c: nat) -> Map<Seq<char>, AttributeValue> {
    match o {
        Operand::FieldRef { .. } => Map::empty(),
        Operand::ValueLit { value } => Map::empty().insert(value_placeholder(c), value),
    }
}

/// The value-placeholder table of `n`, with `c` the counter at its position.
pub open spec fn spec_values(n: ConditionNode, c: nat) -> Map<Seq<char>, AttributeValue>
    decreases n,
{
    match n {
        ConditionNode::AttrExists { .. } => Map::empty(),
        ConditionNode::AttrNotExists { .. } => Map::empty(),
        ConditionNode::AttrType { code, .. } => Map::empty().insert(
            type_placeholder(code@),
            AttributeValue::S(code),
        ),
        ConditionNode::BeginsWith { digest, prefix, .. } => Map::empty().insert(
            begins_with_placeholder(digest@),
            AttributeValue::S(prefix),
        ),
        ConditionNode::Cmp { left, right, .. } => operand_values(left, c).union_prefer_right(
            operand_values(right, c + operand_vals(left)),
        ),
        ConditionNode::Not { inner } => spec_values(*inner, c),
        ConditionNode::And { left, right } => spec_values(*left, c).union_prefer_right(
            spec_values(*right, c + val_count(*left)),
        ),
        ConditionNode::Or { left, right } => spec_values(*left, c).union_prefer_right(
            spec_values(*right, c + val_count(*left)),
        ),
    }
}

fn operand_into(
    o: Operand,
    gen: &mut ValueIdGen,
    names: &mut AttrNameTable,
    values: &mut AttrValueTable,
) -> (r: String)
    requires
        old(names).wf(),
        old(values).wf(),
        old(gen).spec_next() + operand_vals(o) <= u64::MAX,
    ensures
        final(names).wf(),
        final(values).wf(),
        r@ == operand_text(o, old(gen).spec_next()),
        final(gen).spec_next() == old(gen).spec_next() + operand_vals(o),
        final(names)@ == old(names)@.union_prefer_right(operand_names(o)),
        final(values)@ == old(values)@.union_prefer_right(operand_values(o, old(gen).spec_next())),
{
    match o {
        Operand::FieldRef { field } => {
            let mut alias = "#".to_owned();
            alias.append(field.as_str());
            let text = alias.clone();
            let ghost names0 = names@;
            names.insert(alias, field);
            proof {
                assert(final(names)@ =~= names0.union_prefer_right(
                    Map::empty().insert(alias_of(field@), field),
                ));
                assert(final(values)@ =~= old(values)@.union_prefer_right(
                    Map::<Seq<char>, AttributeValue>::empty(),
                ));
            }
            text
        },
        Operand::ValueLit { value } => {
            let id = gen.generate();
            let mut ph = ":value".to_owned();
            let digits = u64_to_dec(id);
            ph.append(digits.as_str());
            let text = ph.clone();
            let ghost values0 = values@;
            values.insert(ph, value);
            proof {
                assert(final(values)@ =~= values0.union_prefer_right(
                    Map::empty().insert(value_placeholder(old(gen).spec_next()), value),
                ));
                assert(final(names)@ =~= old(names)@.union_prefer_right(
                    Map::<Seq<char>, String>::empty(),
                ));
            }
            text
        },
    }
}

fn render_node(
    node: ConditionNode,
    gen: &mut ValueIdGen,
    names: &mut AttrNameTable,
    values: &mut AttrValueTable,
) -> (r: String)
    requires
        old(names).wf(),
        old(values).wf(),
        old(gen).spec_next() + val_count(node) <= u64::MAX,
    ensures
        final(names).wf(),
        final(values).wf(),
        r@ == spec_render(node, old(gen).spec_next()),
        final(gen).spec_next() == old(gen).spec_next() + val_count(node),
        final(names)@ == old(names)@.union_prefer_right(spec_names(node)),
        final(values)@ == old(values)@.union_prefer_right(spec_values(node, old(gen).spec_next())),
    decreases node,
{
    match node {
        ConditionNode::AttrExists { field } => {
            let mut alias = "#".to_owned();
            alias.append(field.as_str());
            let mut s = "attribute_exists(".to_owned();
            s.append(alias.as_str());
            s.append(")");
            let ghost names0 = names@;
            names.insert(alias, field);
            proof {
                assert(s@ =~= "attribute_exists("@ + alias_of(field@) + ")"@);
                assert(final(names)@ =~= names0.union_prefer_right(
                    Map::empty().insert(alias_of(field@), field),
                ));
                assert(final(values)@ =~= old(values)@.union_prefer_right(
                    Map::<Seq<char>, AttributeValue>::empty(),
                ));
            }
            s
        },
        ConditionNode::AttrNotExists { field } => {
            let mut alias = "#".to_owned();
            alias.append(field.as_str());
            let mut s = "attribute_not_exists(".to_owned();
            s.append(alias.as_str());
            s.append(")");
            let ghost names0 = names@;
            names.insert(alias, field);
            proof {
                assert(s@ =~= "attribute_not_exists("@ + alias_of(field@) + ")"@);
                assert(final(names)@ =~= names0.union_prefer_right(
                    Map::empty().insert(alias_of(field@), field),
                ));
                assert(final(values)@ =~= old(values)@.union_prefer_right(
                    Map::<Seq<char>, AttributeValue>::empty(),
                ));
            }
            s
        },
        ConditionNode::AttrType { field, code } => {
            let mut alias = "#".to_owned();
            alias.append(field.as_str());
            let mut ph = ":type".to_owned();
            ph.append(code.as_str());
            let mut s = "attribute_type(".to_owned();
            s.append(alias.as_str());
            s.append(", ");
            s.append(ph.as_str());
            s.append(")");
            let ghost names0 = names@;
            let ghost values0 = values@;
            names.insert(alias, field);
            values.insert(ph, AttributeValue::S(code));
            proof {
                assert(s@ =~= "attribute_type("@ + alias_of(field@) + ", "@ + type_placeholder(
                    code@,
                ) + ")"@);
                assert(final(names)@ =~= names0.union_prefer_right(
                    Map::empty().insert(alias_of(field@), field),
                ));
                assert(final(values)@ =~= values0.union_prefer_right(
                    Map::empty().insert(type_placeholder(code@), AttributeValue::S(code)),
                ));
            }
            s
        },
        ConditionNode::BeginsWith { field, digest, prefix } => {
            let mut alias = "#".to_owned();
            alias.append(field.as_str());
            let mut ph = ":begins_with_".to_owned();
            ph.append(digest.as_str());
            let mut s = "begins_with(".to_owned();
            s.append(alias.as_str());
            s.append(", ");
            s.append(ph.as_str());
            s.append(")");
            let ghost names0 = names@;
            let ghost values0 = values@;
            names.insert(alias, field);
            values.insert(ph, AttributeValue::S(prefix));
            proof {
                assert(s@ =~= "begins_with("@ + alias_of(field@) + ", "@
                    + begins_with_placeholder(digest@) + ")"@);
                assert(final(names)@ =~= names0.union_prefer_right(
                    Map::empty().insert(alias_of(field@), field),
                ));
                assert(final(values)@ =~= values0.union_prefer_right(
                    Map::empty().insert(
                        begins_with_placeholder(digest@),
                        AttributeValue::S(prefix),
                    ),
                ));
            }
            s
        },
        ConditionNode::Cmp { op, left, right } => {
            let ghost c0 = gen.spec_next();
            let ghost names0 = names@;
            let ghost values0 = values@;
            let mut s = operand_into(left, gen, names, values);
            s.append(" ");
            s.append(op.token());
            s.append(" ");
            let rtext = operand_into(right, gen, names, values);
            s.append(rtext.as_str());
            proof {
                assert(s@ =~= spec_render(node, c0));
                assert(final(names)@ =~= names0.union_prefer_right(spec_names(node)));
                assert(final(values)@ =~= values0.union_prefer_right(spec_values(node, c0)));
            }
            s
        },
        ConditionNode::Not { inner } => {
            let ghost c0 = gen.spec_next();
            let inner_text = render_node(*inner, gen, names, values);
            let mut s = "NOT (".to_owned();
            s.append(inner_text.as_str());
            s.append(")");
            proof {
                assert(s@ =~= spec_render(node, c0));
            }
            s
        },
        ConditionNode::And { left, right } => {
            let ghost c0 = gen.spec_next();
            let ghost names0 = names@;
            let ghost values0 = values@;
            let mut s = render_node(*left, gen, names, values);
            s.append(" AND (");
            let rtext = render_node(*right, gen, names, values);
            s.append(rtext.as_str());
            s.append(")");
            proof {
                assert(s@ =~= spec_render(node, c0));
                assert(final(names)@ =~= names0.union_prefer_right(spec_names(node)));
                assert(final(values)@ =~= values0.union_prefer_right(spec_values(node, c0)));
            }
            s
        },
        ConditionNode::Or { left, right } => {
            let ghost c0 = gen.spec_next();
            let ghost names0 = names@;
            let ghost values0 = values@;
            let mut s = render_node(*left, gen, names, values);
            s.append(" OR (");
            let rtext = render_node(*right, gen, names, values);
            s.append(rtext.as_str());
            s.append(")");
            proof {
                assert(s@ =~= spec_render(node, c0));
                assert(final(names)@ =~= names0.union_prefer_right(spec_names(node)));
                assert(final(values)@ =~= values0.union_prefer_right(spec_values(node, c0)));
            }
            s
        },
    }
}

/// A complete condition, combinable with `and`/`or` and consumed by `build`.
pub struct Cond {
    node: ConditionNode,
}

impl Cond {
    pub closed spec fn spec_node(&self) -> ConditionNode {
        self.node
    }

    /// The conjunction `self AND (other)`; the right side is the one that
    /// nests.
    pub fn and(self, other: Cond) -> (r: Cond)
        ensures
            (r.spec_node() matches ConditionNode::And { left, right } && *left == self.spec_node()
                && *right == other.spec_node()),
    {
        Cond { node: ConditionNode::And { left: Box::new(self.node), right: Box::new(other.node) } }
    }

    /// The disjunction `self OR (other)`.
    pub fn or(self, other: Cond) -> (r: Cond)
        ensures
            (r.spec_node() matches ConditionNode::Or { left, right } && *left == self.spec_node()
                && *right == other.spec_node()),
    {
        Cond { node: ConditionNode::Or { left: Box::new(self.node), right: Box::new(other.node) } }
    }

    /// Renders the tree and merges every subtree's alias and placeholder
    /// tables; value literals draw consecutive numbers from `gen` in tree
    /// order. The condition is consumed: it is built exactly once.
    pub fn build(self, gen: &mut ValueIdGen) -> (r: (String, AttrNameTable, AttrValueTable))
        requires
            old(gen).spec_next() + val_count(self.spec_node()) <= u64::MAX,
        ensures
            r.0@ == spec_render(self.spec_node(), old(gen).spec_next()),
            r.1.wf(),
            r.2.wf(),
            r.1@ == spec_names(self.spec_node()),
            r.2@ == spec_values(self.spec_node(), old(gen).spec_next()),
            final(gen).spec_next() == old(gen).spec_next() + val_count(self.spec_node()),
    {
        let mut names = AttrNameTable::new();
        let mut values = AttrValueTable::new();
        let s = render_node(self.node, gen, &mut names, &mut values);
        proof {
            assert(names@ =~= spec_names(self.spec_node()));
            assert(values@ =~= spec_values(self.spec_node(), old(gen).spec_next()));
        }
        (s, names, values)
    }
}

pub open spec fn operand_fields(o: Operand) -> Set<Seq<char>> {
    match o {
        Operand::FieldRef { field } => Set::empty().insert(field@),
        Operand::ValueLit { .. } => Set::empty(),
    }
}

/// The field names a condition references.
pub open spec fn spec_fields(n: ConditionNode) -> Set<Seq<char>>
    decreases n,
{
    match n {
        ConditionNode::AttrExists { field } => Set::empty().insert(field@),
        ConditionNode::AttrNotExists { field } => Set::empty().insert(field@),
        ConditionNode::AttrType { field, .. } => Set::empty().insert(field@),
        ConditionNode::BeginsWith { field, .. } => Set::empty().insert(field@),
        ConditionNode::Cmp { left, right, .. } => operand_fields(left).union(
            operand_fields(right),
        ),
        ConditionNode::Not { inner } => spec_fields(*inner),
        ConditionNode::And { left, right } => spec_fields(*left).union(spec_fields(*right)),
        ConditionNode::Or { left, right } => spec_fields(*left).union(spec_fields(*right)),
    }
}

pub proof fn lemma_alias_of_injective(f1: Seq<char>, f2: Seq<char>)
    requires
        alias_of(f1) == alias_of(f2),
    ensures
        f1 == f2,
{
    lemma_prefix_cancel("#"@, f1, f2);
}

/// `names` holds exactly one entry per field of `fields`: the field's alias
/// mapping to the field name, and nothing else.
pub open spec fn aliases_exactly(names: Map<Seq<char>, String>, fields: Set<Seq<char>>) -> bool {
    &&& forall|f: Seq<char>| #[trigger]
        fields.contains(f) ==> names.contains_key(alias_of(f)) && names[alias_of(f)]@ == f
    &&& forall|k: Seq<char>| #[trigger]
        names.contains_key(k) ==> exists|f: Seq<char>| k == alias_of(f) && fields.contains(f)
}

proof fn lemma_singleton_alias(field: String)
    ensures
        aliases_exactly(
            Map::empty().insert(alias_of(field@), field),
            Set::empty().insert(field@),
        ),
{
    let names = Map::empty().insert(alias_of(field@), field);
    let fields = Set::empty().insert(field@);
    assert forall|k: Seq<char>| #[trigger] names.contains_key(k) implies exists|f: Seq<char>|
        k == alias_of(f) && fields.contains(f) by {
        assert(k == alias_of(field@) && fields.contains(field@));
    }
}

proof fn lemma_union_alias(
    nl: Map<Seq<char>, String>,
    fl: Set<Seq<char>>,
    nr: Map<Seq<char>, String>,
    fr: Set<Seq<char>>,
)
    requires
        aliases_exactly(nl, fl),
        aliases_exactly(nr, fr),
    ensures
        aliases_exactly(nl.union_prefer_right(nr), fl.union(fr)),
{
    let nu = nl.union_prefer_right(nr);
    let fu = fl.union(fr);
    assert forall|f: Seq<char>| #[trigger] fu.contains(f) implies nu.contains_key(alias_of(f))
        && nu[alias_of(f)]@ == f by {
        if fr.contains(f) {
            assert(nr.contains_key(alias_of(f)));
        } else {
            assert(fl.contains(f));
            assert(nl.contains_key(alias_of(f)));
            if nr.contains_key(alias_of(f)) {
                let g = choose|g: Seq<char>| alias_of(f) == alias_of(g) && fr.contains(g);
                lemma_alias_of_injective(f, g);
            }
        }
    }
    assert forall|k: Seq<char>| #[trigger] nu.contains_key(k) implies exists|f: Seq<char>|
        k == alias_of(f) && fu.contains(f) by {
        if nr.contains_key(k) {
            let f = choose|f: Seq<char>| k == alias_of(f) && fr.contains(f);
            assert(k == alias_of(f) && fu.contains(f));
        } else {
            assert(nl.contains_key(k));
            let f = choose|f: Seq<char>| k == alias_of(f) && fl.contains(f);
            assert(k == alias_of(f) && fu.contains(f));
        }
    }
}

proof fn lemma_operand_alias(o: Operand)
    ensures
        aliases_exactly(operand_names(o), operand_fields(o)),
{
    match o {
        Operand::FieldRef { field } => {
            lemma_singleton_alias(field);
        },
        Operand::ValueLit { .. } => {},
    }
}

/// Law: the alias table of a condition holds exactly one entry for each
/// referenced field, however often the field occurs: its key is the field's
/// alias, its value the field name, and it holds nothing else.
pub proof fn lemma_one_alias_per_field(n: ConditionNode)
    ensures
        aliases_exactly(spec_names(n), spec_fields(n)),
    decreases n,
{
    match n {
        ConditionNode::AttrExists { field } => {
            lemma_singleton_alias(field);
        },
        ConditionNode::AttrNotExists { field } => {
            lemma_singleton_alias(field);
        },
        ConditionNode::AttrType { field, .. } => {
            lemma_singleton_alias(field);
        },
        ConditionNode::BeginsWith { field, .. } => {
            lemma_singleton_alias(field);
        },
        ConditionNode::Cmp { left, right, .. } => {
            lemma_operand_alias(left);
            lemma_operand_alias(right);
            lemma_union_alias(
                operand_names(left),
                operand_fields(left),
                operand_names(right),
                operand_fields(right),
            );
        },
        ConditionNode::Not { inner } => {
            lemma_one_alias_per_field(*inner);
        },
        ConditionNode::And { left, right } => {
            lemma_one_alias_per_field(*left);
            lemma_one_alias_per_field(*right);
            lemma_union_alias(
                spec_names(*left),
                spec_fields(*left),
                spec_names(*right),
                spec_fields(*right),
            );
        },
        ConditionNode::Or { left, right } => {
            lemma_one_alias_per_field(*left);
            lemma_one_alias_per_field(*right);
            lemma_union_alias(
                spec_names(*left),
                spec_fields(*left),
                spec_names(*right),
                spec_fields(*right),
            );
        },
    }
}

/// Law: a negation renders as `NOT (`, the inner expression, `)`.
pub proof fn lemma_not_renders(n: ConditionNode, c: nat)
    ensures
        n matches ConditionNode::Not { inner } ==> spec_render(n, c) == "NOT ("@ + spec_render(
            *inner,
            c,
        ) + ")"@,
{
}

/// Law: a conjunction renders as the left expression, ` AND (`, the right
/// expression, `)`; chained conjunctions therefore nest on the right, one
/// level per `and`. A disjunction is the same with ` OR (`.
pub proof fn lemma_and_renders(n: ConditionNode, c: nat)
    ensures
        n matches ConditionNode::And { left, right } ==> spec_render(n, c) == spec_render(*left, c)
            + " AND ("@ + spec_render(*right, c + val_count(*left)) + ")"@,
        n matches ConditionNode::Or { left, right } ==> spec_render(n, c) == spec_render(*left, c)
            + " OR ("@ + spec_render(*right, c + val_count(*left)) + ")"@,
{
}

/// Law: two `attribute_type` literals share one placeholder exactly when
/// their type codes agree, anywhere in a program run.
pub proof fn lemma_type_placeholder_shared(c1: Seq<char>, c2: Seq<char>)
    ensures
        (type_placeholder(c1) == type_placeholder(c2)) <==> (c1 == c2),
{
    if type_placeholder(c1) == type_placeholder(c2) {
        lemma_prefix_cancel(":type"@, c1, c2);
    }
}

/// Law: two `begins_with` literals with the same prefix share one
/// placeholder, anywhere in a program run; placeholders agree exactly when
/// the prefix digests do, so prefixes with distinct digests never collide.
pub proof fn lemma_begins_with_placeholder_shared(p1: Seq<char>, p2: Seq<char>)
    ensures
        p1 == p2 ==> begins_with_placeholder(md5_hex_of(p1)) == begins_with_placeholder(
            md5_hex_of(p2),
        ),
        (begins_with_placeholder(md5_hex_of(p1)) == begins_with_placeholder(md5_hex_of(p2)))
            <==> (md5_hex_of(p1) == md5_hex_of(p2)),
{
    if begins_with_placeholder(md5_hex_of(p1)) == begins_with_placeholder(md5_hex_of(p2)) {
        lemma_prefix_cancel(":begins_with_"@, md5_hex_of(p1), md5_hex_of(p2));
    }
}

/// Law: counter-based placeholders for distinct numbers are distinct tokens.
/// One build draws the consecutive numbers from the generator's count (see
/// `Cond::build`), so a literal never reuses a placeholder, within one build
/// or across builds driven by one generator, even when the literal value
/// repeats.
pub proof fn lemma_value_placeholder_injective(a: nat, b: nat)
    ensures
        (value_placeholder(a) == value_placeholder(b)) <==> (a == b),
{
    if value_placeholder(a) == value_placeholder(b) {
        lemma_prefix_cancel(":value"@, dec_of(a), dec_of(b));
        lemma_dec_of_injective(a, b);
    }
}

/// Whether `n` is `p`, wrapped once in `Not` when `negated` holds.
pub open spec fn negation_wrapped(
    negated: bool,
    n: ConditionNode,
    p: spec_fn(ConditionNode) -> bool,
) -> bool {
    if negated {
        n matches ConditionNode::Not { inner } && p(*inner)
    } else {
        p(n)
    }
}

pub open spec fn is_attr_exists(n: ConditionNode, field: Seq<char>) -> bool {
    n matches ConditionNode::AttrExists { field: f } && f@ == field
}

pub open spec fn is_attr_not_exists(n: ConditionNode, field: Seq<char>) -> bool {
    n matches ConditionNode::AttrNotExists { field: f } && f@ == field
}

pub open spec fn is_attr_type(n: ConditionNode, field: Seq<char>, code: Seq<char>) -> bool {
    n matches ConditionNode::AttrType { field: f, code: c } && f@ == field && c@ == code
}

pub open spec fn is_begins_with(n: ConditionNode, field: Seq<char>, prefix: Seq<char>) -> bool {
    n matches ConditionNode::BeginsWith { field: f, digest: d, prefix: p } && f@ == field && d@
        == md5_hex_of(prefix) && p@ == prefix
}

pub open spec fn operand_is_field(o: Operand, field: Seq<char>) -> bool {
    o matches Operand::FieldRef { field: f } && f@ == field
}

pub open spec fn operand_is_value(o: Operand, v: AttributeValue) -> bool {
    o matches Operand::ValueLit { value } && value == v
}

/// Starts a condition; `not` marks the next predicate for negation.
pub struct ConditionBuilder {
    negated: bool,
}

/// A fresh condition builder.
pub fn condition() -> (r: ConditionBuilder)
    ensures
        !r.spec_negated(),
{
    ConditionBuilder { negated: false }
}

impl ConditionBuilder {
    pub closed spec fn spec_negated(&self) -> bool {
        self.negated
    }

    /// Negates the predicate that follows.
    pub fn not(self) -> (r: ConditionBuilder)
        ensures
            r.spec_negated() == !self.spec_negated(),
    {
        ConditionBuilder { negated: !self.negated }
    }

    fn finish(self, node: ConditionNode) -> (r: Cond)
        ensures
            if self.spec_negated() {
                r.spec_node() matches ConditionNode::Not { inner } && *inner == node
            } else {
                r.spec_node() == node
            },
    {
        if self.negated {
            Cond { node: ConditionNode::Not { inner: Box::new(node) } }
        } else {
            Cond { node }
        }
    }

    pub fn attr_exists(self, field: &str) -> (r: Cond)
        ensures
            negation_wrapped(
                self.spec_negated(),
                r.spec_node(),
                (|n: ConditionNode| is_attr_exists(n, field@)),
            ),
    {
        self.finish(ConditionNode::AttrExists { field: field.to_owned() })
    }

    pub fn attr_not_exists(self, field: &str) -> (r: Cond)
        ensures
            negation_wrapped(
                self.spec_negated(),
                r.spec_node(),
                (|n: ConditionNode| is_attr_not_exists(n, field@)),
            ),
    {
        self.finish(ConditionNode::AttrNotExists { field: field.to_owned() })
    }

    /// An `attribute_type` predicate; its literal's placeholder is
    /// `:type<CODE>`, shared by every use of the same type code.
    pub fn attr_type(self, field: &str, ty: AttributeType) -> (r: Cond)
        ensures
            negation_wrapped(
                self.spec_negated(),
                r.spec_node(),
                (|n: ConditionNode| is_attr_type(n, field@, ty.spec_code())),
            ),
    {
        self.finish(
            ConditionNode::AttrType { field: field.to_owned(), code: ty.code().to_owned() },
        )
    }

    /// A `begins_with` predicate; its literal's placeholder is
    /// `:begins_with_<digest>`, shared by every use of the same prefix.
    pub fn begins_with(self, field: &str, prefix: &str) -> (r: Cond)
        ensures
            negation_wrapped(
                self.spec_negated(),
                r.spec_node(),
                (|n: ConditionNode| is_begins_with(n, field@, prefix@)),
            ),
    {
        let digest = md5_hex(prefix);
        self.finish(
            ConditionNode::BeginsWith {
                field: field.to_owned(),
                digest,
                prefix: prefix.to_owned(),
            },
        )
    }

    /// Starts a comparison whose left operand is an attribute reference.
    pub fn attr(self, field: &str) -> (r: OperandBuilder)
        ensures
            r.spec_negated() == self.spec_negated(),
            operand_is_field(r.spec_left(), field@),
    {
        OperandBuilder {
            negated: self.negated,
            left: Operand::FieldRef { field: field.to_owned() },
        }
    }

    /// Starts a comparison whose left operand is a literal value; the
    /// literal draws a fresh `:value<N>` placeholder at build time.
    pub fn value(self, v: AttributeValue) -> (r: OperandBuilder)
        ensures
            r.spec_negated() == self.spec_negated(),
            operand_is_value(r.spec_left(), v),
    {
        OperandBuilder { negated: self.negated, left: Operand::ValueLit { value: v } }
    }
}

/// A comparison with its left operand chosen; a `..._attr` or `..._value`
/// call supplies the operator and the right operand.
pub struct OperandBuilder {
    negated: bool,
    left: Operand,
}

impl OperandBuilder {
    pub closed spec fn spec_negated(&self) -> bool {
        self.negated
    }

    pub closed spec fn spec_left(&self) -> Operand {
        self.left
    }

    pub fn cmp_attr(self, op: CmpOp, field: &str) -> (r: Cond)
        ensures
            negation_wrapped(
                self.spec_negated(),
                r.spec_node(),
                (|n: ConditionNode| n matches ConditionNode::Cmp { op: o, left, right } && o == op
                    && left == self.spec_left() && operand_is_field(right, field@)),
            ),
    {
        let b = ConditionBuilder { negated: self.negated };
        b.finish(
            ConditionNode::Cmp {
                op,
                left: self.left,
                right: Operand::FieldRef { field: field.to_owned() },
            },
        )
    }

    pub fn cmp_value(self, op: CmpOp, v: AttributeValue) -> (r: Cond)
        ensures
            negation_wrapped(
                self.spec_negated(),
                r.spec_node(),
                (|n: ConditionNode| n matches ConditionNode::Cmp { op: o, left, right } && o == op
                    && left == self.spec_left() && operand_is_value(right, v)),
            ),
    {
        let b = ConditionBuilder { negated: self.negated };
        b.finish(ConditionNode::Cmp { op, left: self.left, right: Operand::ValueLit { value: v } })
    }

    pub fn eq_attr(self, field: &str) -> (r: Cond)
        ensures
            negation_wrapped(
                self.spec_negated(),
                r.spec_node(),
                (|n: ConditionNode| n matches ConditionNode::Cmp { op, left, right } && op
                    == CmpOp::Eq && left == self.spec_left() && operand_is_field(right, field@)),
            ),
    {
        self.cmp_attr(CmpOp::Eq, field)
    }

    pub fn eq_value(self, v: AttributeValue) -> (r: Cond)
        ensures
            negation_wrapped(
                self.spec_negated(),
                r.spec_node(),
                (|n: ConditionNode| n matches ConditionNode::Cmp { op, left, right } && op
                    == CmpOp::Eq && left == self.spec_left() && operand_is_value(right, v)),
            ),
    {
        self.cmp_value(CmpOp::Eq, v)
    }
}

} // verus!
