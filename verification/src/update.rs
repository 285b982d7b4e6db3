//! Update expressions: four ordered mutation lists (`set`, `add`, `remove`,
//! `delete`) compiled into one update expression plus alias and
//! value-placeholder tables.
//!
//! Every entry registers its field alias. Every entry also draws one number
//! from the caller's counter in accumulation order (`set`, then `add`, then
//! `remove`, then `delete`) — a `remove` entry consumes its number without
//! emitting a placeholder, so counter numbers may be skipped in the output.
//! The printed expression puts the categories in the fixed order `ADD`,
//! `SET`, `REMOVE`, `DELETE`, each only when it has entries.
use vstd::prelude::*;

use crate::attr::{AttrNameTable, AttrValueTable, AttributeValue};
use crate::condition::{alias_of, value_placeholder};
use crate::ValueIdGen;

verus! {

/// `parts` joined by `sep`.
pub open spec fn joined(parts: Seq<Seq<char>>, sep: Seq<char>) -> Seq<char>
    decreases parts.len(),
{
    if parts.len() == 0 {
        Seq::empty()
    } else if parts.len() == 1 {
        parts[0]
    } else {
        joined(parts.drop_last(), sep) + sep + parts.last()
    }
}

/// The clause text of one value-carrying entry: `#field = :valueN` under
/// `SET`, `#field :valueN` under `ADD` and `DELETE`.
pub open spec fn pair_text(field: Seq<char>, eq_sign: bool, n: nat) -> Seq<char> {
    alias_of(field) + (if eq_sign {
        " = "@
    } else {
        " "@
    }) + value_placeholder(n)
}

/// The clause texts of a value-carrying list whose first entry draws
/// counter number `c`.
pub open spec fn pair_texts(
    items: Seq<(String, AttributeValue)>,
    eq_sign: bool,
    c: nat,
) -> Seq<Seq<char>> {
    Seq::new(items.len(), |i: int| pair_text(items[i].0@, eq_sign, (c + i) as nat))
}

/// The clause texts of the `remove` list: aliases only.
pub open spec fn remove_texts(items: Seq<String>) -> Seq<Seq<char>> {
    Seq::new(items.len(), |i: int| alias_of(items[i]@))
}

/// The aliases a value-carrying list registers.
pub open spec fn names_of_pairs(items: Seq<(String, AttributeValue)>) -> Map<Seq<char>, String>
    decreases items.len(),
{
    if items.len() == 0 {
        Map::empty()
    } else {
        names_of_pairs(items.drop_last()).insert(alias_of(items.last().0@), items.last().0)
    }
}

/// The aliases the `remove` list registers.
pub open spec fn names_of_fields(items: Seq<String>) -> Map<Seq<char>, String>
    decreases items.len(),
{
    if items.len() == 0 {
        Map::empty()
    } else {
        names_of_fields(items.drop_last()).insert(alias_of(items.last()@), items.last())
    }
}

/// The placeholders a value-carrying list maps, its first entry numbered `c`.
pub open spec fn values_of_pairs(items: Seq<(String, AttributeValue)>, c: nat) -> Map<
    Seq<char>,
    AttributeValue,
>
    decreases items.len(),
{
    if items.len() == 0 {
        Map::empty()
    } else {
        values_of_pairs(items.drop_last(), c).insert(
            value_placeholder((c + items.len() - 1) as nat),
            items.last().1,
        )
    }
}

/// The merged alias table of a compiled update expression.
pub open spec fn update_names(
    set: Seq<(String, AttributeValue)>,
    add: Seq<(String, AttributeValue)>,
    remove: Seq<String>,
    delete: Seq<(String, AttributeValue)>,
) -> Map<Seq<char>, String> {
    names_of_pairs(set).union_prefer_right(names_of_pairs(add)).union_prefer_right(
        names_of_fields(remove),
    ).union_prefer_right(names_of_pairs(delete))
}

/// The merged value-placeholder table; `set` draws numbers from `c`, `add`
/// after it, `delete` after the (unused) `remove` numbers.
pub open spec fn update_values(
    set: Seq<(String, AttributeValue)>,
    add: Seq<(String, AttributeValue)>,
    remove: Seq<String>,
    delete: Seq<(String, AttributeValue)>,
    c: nat,
) -> Map<Seq<char>, AttributeValue> {
    values_of_pairs(set, c).union_prefer_right(
        values_of_pairs(add, c + set.len()),
    ).union_prefer_right(values_of_pairs(delete, c + set.len() + add.len() + remove.len()))
}

/// The keyword segments of the expression, in the fixed printed order.
pub open spec fn update_segments(
    set: Seq<(String, AttributeValue)>,
    add: Seq<(String, AttributeValue)>,
    remove: Seq<String>,
    delete: Seq<(String, AttributeValue)>,
    c: nat,
) -> Seq<Seq<char>> {
    let s0 = Seq::<Seq<char>>::empty();
    let s1 = if add.len() > 0 {
        s0.push("ADD "@ + joined(pair_texts(add, false, c + set.len()), ", "@))
    } else {
        s0
    };
    let s2 = if set.len() > 0 {
        s1.push("SET "@ + joined(pair_texts(set, true, c), ", "@))
    } else {
        s1
    };
    let s3 = if remove.len() > 0 {
        s2.push("REMOVE "@ + joined(remove_texts(remove), ", "@))
    } else {
        s2
    };
    if delete.len() > 0 {
        s3.push(
            "DELETE "@ + joined(
                pair_texts(delete, false, c + set.len() + add.len() + remove.len()),
                ", "@,
            ),
        )
    } else {
        s3
    }
}

/// The full update expression: the non-empty keyword segments joined by one
/// space.
pub open spec fn spec_update_expression(
    set: Seq<(String, AttributeValue)>,
    add: Seq<(String, AttributeValue)>,
    remove: Seq<String>,
    delete: Seq<(String, AttributeValue)>,
    c: nat,
) -> Seq<char> {
    joined(update_segments(set, add, remove, delete, c), " "@)
}

/// The views of the strings in `parts`.
pub open spec fn part_views(parts: Seq<String>) -> Seq<Seq<char>> {
    parts.map_values(|p: String| p@)
}

/// Joins `parts` with `sep`.
fn join_with(parts: &Vec<String>, sep: &str) -> (r: String)
    ensures
        r@ == joined(part_views(parts@), sep@),
{
    let mut r = String::new();
    let n = parts.len();
    for i in 0..n
        invariant
            r@ == joined(part_views(parts@.subrange(0, i as int)), sep@),
    {
        if i > 0 {
            r.append(sep);
        }
        r.append(parts[i].as_str());
        proof {
            let prev = part_views(parts@.subrange(0, i as int));
            let now = part_views(parts@.subrange(0, i + 1 as int));
            assert(now.drop_last() =~= prev);
            assert(now.last() == parts@[i as int]@);
            if i == 0 {
                assert(r@ =~= joined(now, sep@));
            } else {
                assert(r@ =~= joined(now, sep@));
            }
        }
    }
    proof {
        assert(parts@.subrange(0, parts@.len() as int) =~= parts@);
    }
    r
}

/// Accumulates categorized mutations and compiles them into one update
/// expression; compiling consumes the builder, so it is used exactly once.
/// No conflict between categories (the same field in `set` and `remove`,
/// say) is detected here; the store rules on such expressions.
pub struct UpdateExpressionBuilder {
    set_items: Vec<(String, AttributeValue)>,
    add_items: Vec<(String, AttributeValue)>,
    remove_items: Vec<String>,
    delete_items: Vec<(String, AttributeValue)>,
}

impl UpdateExpressionBuilder {
    pub closed spec fn spec_set(&self) -> Seq<(String, AttributeValue)> {
        self.set_items@
    }

    pub closed spec fn spec_add(&self) -> Seq<(String, AttributeValue)> {
        self.add_items@
    }

    pub closed spec fn spec_remove(&self) -> Seq<String> {
        self.remove_items@
    }

    pub closed spec fn spec_delete(&self) -> Seq<(String, AttributeValue)> {
        self.delete_items@
    }

    pub fn new() -> (r: UpdateExpressionBuilder)
        ensures
            r.spec_set() == Seq::<(String, AttributeValue)>::empty(),
            r.spec_add() == Seq::<(String, AttributeValue)>::empty(),
            r.spec_remove() == Seq::<String>::empty(),
            r.spec_delete() == Seq::<(String, AttributeValue)>::empty(),
    {
        UpdateExpressionBuilder {
            set_items: Vec::new(),
            add_items: Vec::new(),
            remove_items: Vec::new(),
            delete_items: Vec::new(),
        }
    }

    /// Appends a `SET field = value` mutation.
    pub fn set(self, field: &str, value: AttributeValue) -> (r: UpdateExpressionBuilder)
        ensures
            r.spec_set().len() == self.spec_set().len() + 1,
            r.spec_set().drop_last() == self.spec_set(),
            r.spec_set().last().0@ == field@,
            r.spec_set().last().1 == value,
            r.spec_add() == self.spec_add(),
            r.spec_remove() == self.spec_remove(),
            r.spec_delete() == self.spec_delete(),
    {
        let mut b = self;
        b.set_items.push((field.to_owned(), value));
        proof {
            assert(b.set_items@.drop_last() =~= self.spec_set());
        }
        b
    }

    /// Appends an `ADD field value` mutation.
    pub fn add(self, field: &str, value: AttributeValue) -> (r: UpdateExpressionBuilder)
        ensures
            r.spec_add().len() == self.spec_add().len() + 1,
            r.spec_add().drop_last() == self.spec_add(),
            r.spec_add().last().0@ == field@,
            r.spec_add().last().1 == value,
            r.spec_set() == self.spec_set(),
            r.spec_remove() == self.spec_remove(),
            r.spec_delete() == self.spec_delete(),
    {
        let mut b = self;
        b.add_items.push((field.to_owned(), value));
        proof {
            assert(b.add_items@.drop_last() =~= self.spec_add());
        }
        b
    }

    /// Appends a `REMOVE field` mutation.
    pub fn remove(self, field: &str) -> (r: UpdateExpressionBuilder)
        ensures
            r.spec_remove().len() == self.spec_remove().len() + 1,
            r.spec_remove().drop_last() == self.spec_remove(),
            r.spec_remove().last()@ == field@,
            r.spec_set() == self.spec_set(),
            r.spec_add() == self.spec_add(),
            r.spec_delete() == self.spec_delete(),
    {
        let mut b = self;
        b.remove_items.push(field.to_owned());
        proof {
            assert(b.remove_items@.drop_last() =~= self.spec_remove());
        }
        b
    }

    /// Appends a `DELETE field value` mutation.
    pub fn delete(self, field: &str, value: AttributeValue) -> (r: UpdateExpressionBuilder)
        ensures
            r.spec_delete().len() == self.spec_delete().len() + 1,
            r.spec_delete().drop_last() == self.spec_delete(),
            r.spec_delete().last().0@ == field@,
            r.spec_delete().last().1 == value,
            r.spec_set() == self.spec_set(),
            r.spec_add() == self.spec_add(),
            r.spec_remove() == self.spec_remove(),
    {
        let mut b = self;
        b.delete_items.push((field.to_owned(), value));
        proof {
            assert(b.delete_items@.drop_last() =~= self.spec_delete());
        }
        b
    }

    /// Compiles and drains the four lists: the expression text, the alias
    /// table and the value-placeholder table, every entry's counter number
    /// drawn from `gen` in accumulation order.
    pub fn build_expression(self, gen: &mut ValueIdGen) -> (r: (
        String,
        AttrNameTable,
        AttrValueTable,
    ))
        requires
            old(gen).spec_next() + self.spec_set().len() + self.spec_add().len()
                + self.spec_remove().len() + self.spec_delete().len() <= u64::MAX,
        ensures
            r.0@ == spec_update_expression(
                self.spec_set(),
                self.spec_add(),
                self.spec_remove(),
                self.spec_delete(),
                old(gen).spec_next(),
            ),
            r.1.wf(),
            r.2.wf(),
            r.1@ == update_names(
                self.spec_set(),
                self.spec_add(),
                self.spec_remove(),
                self.spec_delete(),
            ),
            r.2@ == update_values(
                self.spec_set(),
                self.spec_add(),
                self.spec_remove(),
                self.spec_delete(),
                old(gen).spec_next(),
            ),
            final(gen).spec_next() == old(gen).spec_next() + self.spec_set().len()
                + self.spec_add().len() + self.spec_remove().len() + self.spec_delete().len(),
    {
        let UpdateExpressionBuilder { set_items, add_items, remove_items, delete_items } = self;
        let mut names = AttrNameTable::new();
        let mut values = AttrValueTable::new();
        let ghost c0 = gen.spec_next();

        let set_empty = set_items.len() == 0;
        let add_empty = add_items.len() == 0;
        let remove_empty = remove_items.len() == 0;
        let delete_empty = delete_items.len() == 0;

        let set_parts = render_pairs(set_items, true, gen, &mut names, &mut values);
        let add_parts = render_pairs(add_items, false, gen, &mut names, &mut values);
        let remove_parts = render_removes(remove_items, gen, &mut names);
        let delete_parts = render_pairs(delete_items, false, gen, &mut names, &mut values);

        let mut segments: Vec<String> = Vec::new();
        if !add_empty {
            let mut seg = "ADD ".to_owned();
            let clause = join_with(&add_parts, ", ");
            seg.append(clause.as_str());
            segments.push(seg);
        }
        if !set_empty {
            let mut seg = "SET ".to_owned();
            let clause = join_with(&set_parts, ", ");
            seg.append(clause.as_str());
            segments.push(seg);
        }
        if !remove_empty {
            let mut seg = "REMOVE ".to_owned();
            let clause = join_with(&remove_parts, ", ");
            seg.append(clause.as_str());
            segments.push(seg);
        }
        if !delete_empty {
            let mut seg = "DELETE ".to_owned();
            let clause = join_with(&delete_parts, ", ");
            seg.append(clause.as_str());
            segments.push(seg);
        }
        let expression = join_with(&segments, " ");
        proof {
            assert(part_views(segments@) =~= update_segments(
                self.spec_set(),
                self.spec_add(),
                self.spec_remove(),
                self.spec_delete(),
                c0,
            ));
            assert(names@ =~= update_names(
                self.spec_set(),
                self.spec_add(),
                self.spec_remove(),
                self.spec_delete(),
            ));
            assert(values@ =~= update_values(
                self.spec_set(),
                self.spec_add(),
                self.spec_remove(),
                self.spec_delete(),
                c0,
            ));
        }
        (expression, names, values)
    }
}

/// One compiled update write, ready for a transport: the item's key, the
/// expression text and the two placeholder tables it refers to.
pub struct UpdateItemInput {
    pub table_name: String,
    pub key: AttrValueTable,
    pub update_expression: String,
    pub expression_attribute_names: AttrNameTable,
    pub expression_attribute_values: AttrValueTable,
}

impl UpdateExpressionBuilder {
    /// How many mutations are accumulated, over all four categories.
    pub fn entry_count(&self) -> (r: usize)
        requires
            self.spec_set().len() + self.spec_add().len() + self.spec_remove().len()
                + self.spec_delete().len() <= usize::MAX,
        ensures
            r == self.spec_set().len() + self.spec_add().len() + self.spec_remove().len()
                + self.spec_delete().len(),
    {
        self.set_items.len() + self.add_items.len() + self.remove_items.len()
            + self.delete_items.len()
    }

    /// Compiles the mutations into one update request against `table_name`
    /// for the item under `key`.
    pub fn into_input(
        self,
        table_name: String,
        key: AttrValueTable,
        gen: &mut ValueIdGen,
    ) -> (r: UpdateItemInput)
        requires
            old(gen).spec_next() + self.spec_set().len() + self.spec_add().len()
                + self.spec_remove().len() + self.spec_delete().len() <= u64::MAX,
        ensures
            r.table_name == table_name,
            r.key == key,
            r.update_expression@ == spec_update_expression(
                self.spec_set(),
                self.spec_add(),
                self.spec_remove(),
                self.spec_delete(),
                old(gen).spec_next(),
            ),
            r.expression_attribute_names.wf(),
            r.expression_attribute_values.wf(),
            r.expression_attribute_names@ == update_names(
                self.spec_set(),
                self.spec_add(),
                self.spec_remove(),
                self.spec_delete(),
            ),
            r.expression_attribute_values@ == update_values(
                self.spec_set(),
                self.spec_add(),
                self.spec_remove(),
                self.spec_delete(),
                old(gen).spec_next(),
            ),
            final(gen).spec_next() == old(gen).spec_next() + self.spec_set().len()
                + self.spec_add().len() + self.spec_remove().len() + self.spec_delete().len(),
    {
        let (update_expression, expression_attribute_names, expression_attribute_values) =
            self.build_expression(gen);
        UpdateItemInput {
            table_name,
            key,
            update_expression,
            expression_attribute_names,
            expression_attribute_values,
        }
    }
}

/// Renders one value-carrying list to its clause parts, registering aliases
/// and placeholders; each entry draws one counter number.
fn render_pairs(
    items: Vec<(String, AttributeValue)>,
    eq_sign: bool,
    gen: &mut ValueIdGen,
    names: &mut AttrNameTable,
    values: &mut AttrValueTable,
) -> (r: Vec<String>)
    requires
        old(names).wf(),
        old(values).wf(),
        old(gen).spec_next() + items@.len() <= u64::MAX,
    ensures
        final(names).wf(),
        final(values).wf(),
        part_views(r@) == pair_texts(items@, eq_sign, old(gen).spec_next()),
        final(gen).spec_next() == old(gen).spec_next() + items@.len(),
        final(names)@ == old(names)@.union_prefer_right(names_of_pairs(items@)),
        final(values)@ == old(values)@.union_prefer_right(
            values_of_pairs(items@, old(gen).spec_next()),
        ),
{
    let ghost c0 = gen.spec_next();
    let ghost all = items@;
    let mut items = items;
    let mut parts: Vec<String> = Vec::new();
    let n = items.len();
    for i in 0..n
        invariant
            all.len() == n,
            items@ =~= all.subrange(i as int, n as int),
            gen.spec_next() == c0 + i,
            c0 + n <= u64::MAX,
            names.wf(),
            values.wf(),
            part_views(parts@) =~= pair_texts(all.subrange(0, i as int), eq_sign, c0),
            names@ =~= old(names)@.union_prefer_right(names_of_pairs(all.subrange(0, i as int))),
            values@ =~= old(values)@.union_prefer_right(
                values_of_pairs(all.subrange(0, i as int), c0),
            ),
    {
        let (field, value) = items.remove(0);
        let id = gen.generate();
        let mut alias = "#".to_owned();
        alias.append(field.as_str());
        let mut ph = ":value".to_owned();
        let digits = crate::text::u64_to_dec(id);
        ph.append(digits.as_str());
        let mut part = alias.clone();
        if eq_sign {
            part.append(" = ");
        } else {
            part.append(" ");
        }
        part.append(ph.as_str());
        let ghost part_v = part@;
        proof {
            assert(part_v =~= pair_text(all[i as int].0@, eq_sign, (c0 + i) as nat));
        }
        let ghost parts_before = parts@;
        parts.push(part);
        names.insert(alias, field);
        values.insert(ph, value);
        proof {
            let pre = all.subrange(0, i as int);
            let now = all.subrange(0, i + 1 as int);
            assert(now.drop_last() =~= pre);
            assert(now.last() == all[i as int]);
            assert(parts@.len() == i + 1);
            assert(parts@[i as int]@ == part_v);
            assert forall|j: int| 0 <= j < i implies parts@[j]@ == pair_texts(now, eq_sign, c0)[j] by {
                assert(parts@[j] == parts_before[j]);
                assert(part_views(parts_before)[j] == parts_before[j]@);
                assert(pair_texts(pre, eq_sign, c0)[j] == pair_texts(now, eq_sign, c0)[j]);
            }
            assert(part_views(parts@) =~= pair_texts(now, eq_sign, c0));
            assert(names_of_pairs(now) =~= names_of_pairs(pre).insert(
                alias_of(all[i as int].0@),
                all[i as int].0,
            ));
            assert(names@ =~= old(names)@.union_prefer_right(names_of_pairs(now)));
            assert(values_of_pairs(now, c0) =~= values_of_pairs(pre, c0).insert(
                value_placeholder((c0 + i) as nat),
                all[i as int].1,
            ));
            assert(values@ =~= old(values)@.union_prefer_right(values_of_pairs(now, c0)));
        }
    }
    proof {
        assert(all.subrange(0, n as int) =~= all);
    }
    parts
}

/// Renders the `remove` list to its clause parts, registering aliases; each
/// entry consumes one counter number without emitting a placeholder.
fn render_removes(items: Vec<String>, gen: &mut ValueIdGen, names: &mut AttrNameTable) -> (r: Vec<
    String,
>)
    requires
        old(names).wf(),
        old(gen).spec_next() + items@.len() <= u64::MAX,
    ensures
        final(names).wf(),
        part_views(r@) == remove_texts(items@),
        final(gen).spec_next() == old(gen).spec_next() + items@.len(),
        final(names)@ == old(names)@.union_prefer_right(names_of_fields(items@)),
{
    let ghost c0 = gen.spec_next();
    let ghost all = items@;
    let mut items = items;
    let mut parts: Vec<String> = Vec::new();
    let n = items.len();
    for i in 0..n
        invariant
            all.len() == n,
            items@ =~= all.subrange(i as int, n as int),
            gen.spec_next() == c0 + i,
            c0 + n <= u64::MAX,
            names.wf(),
            part_views(parts@) =~= remove_texts(all.subrange(0, i as int)),
            names@ =~= old(names)@.union_prefer_right(names_of_fields(all.subrange(0, i as int))),
    {
        let field = items.remove(0);
        let _drawn: u64 = gen.generate();
        let mut alias = "#".to_owned();
        alias.append(field.as_str());
        let part = alias.clone();
        let ghost part_v = part@;
        proof {
            assert(part_v =~= alias_of(all[i as int]@));
        }
        let ghost parts_before = parts@;
        parts.push(part);
        names.insert(alias, field);
        proof {
            let pre = all.subrange(0, i as int);
            let now = all.subrange(0, i + 1 as int);
            assert(now.drop_last() =~= pre);
            assert(now.last() == all[i as int]);
            assert(parts@.len() == i + 1);
            assert(parts@[i as int]@ == part_v);
            assert forall|j: int| 0 <= j < i implies parts@[j]@ == remove_texts(now)[j] by {
                assert(parts@[j] == parts_before[j]);
                assert(part_views(parts_before)[j] == parts_before[j]@);
                assert(remove_texts(pre)[j] == remove_texts(now)[j]);
            }
            assert(part_views(parts@) =~= remove_texts(now));
            assert(names_of_fields(now) =~= names_of_fields(pre).insert(
                alias_of(all[i as int]@),
                all[i as int],
            ));
            assert(names@ =~= old(names)@.union_prefer_right(names_of_fields(now)));
        }
    }
    proof {
        assert(all.subrange(0, n as int) =~= all);
    }
    parts
}

} // verus!
