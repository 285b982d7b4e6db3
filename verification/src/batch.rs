//! The batch key-retrieval engine: an arbitrarily large key set is drained
//! in chunks of at most 100 keys, one request at a time; returned items are
//! decoded through the attribute codec, store-deferred keys are accumulated
//! for the caller, and a capacity metric is summed.
//!
//! Two deliberate policies are kept exactly as stated: keys the store
//! reports as unprocessed are handed back to the caller, never retried
//! within the same invocation; and a decode failure aborts the whole
//! operation, discarding the items accumulated from earlier chunks.
use vstd::prelude::*;

use crate::attr::{AttrValueTable, AttributeValue};
use crate::codec::{decode_item, opt_str_view, spec_decode_item, FieldSpec, FieldValue};
use crate::error::RaidenError;

verus! {

/// One item's key: the partition-key value, plus the sort-key value where
/// the table has one.
pub struct KeyTuple {
    pub partition: AttributeValue,
    pub sort: Option<AttributeValue>,
}

/// One batch read: up to 100 keys against one table.
pub struct BatchGetRequest {
    pub table_name: String,
    pub keys: Vec<AttrValueTable>,
}

/// The store's answer to one batch read, as plain values: the capacity the
/// call consumed, the returned items per table, and the keys the store
/// deferred per table.
pub struct BatchGetResponse {
    pub consumed_capacity: u64,
    pub responses: Option<Vec<(String, Vec<AttrValueTable>)>>,
    pub unprocessed_keys: Option<Vec<(String, Vec<AttrValueTable>)>>,
}

/// What a drained batch operation hands back.
pub struct BatchGetOutput {
    pub items: Vec<Vec<FieldValue>>,
    pub unprocessed_keys: Vec<AttrValueTable>,
    pub consumed_capacity: u64,
}

/// The first entry for table `t`, if any.
pub open spec fn spec_lookup(
    entries: Seq<(String, Vec<AttrValueTable>)>,
    t: Seq<char>,
) -> Option<Seq<AttrValueTable>>
    decreases entries.len(),
{
    if entries.len() == 0 {
        Option::None
    } else if entries[0].0@ == t {
        Option::Some(entries[0].1@)
    } else {
        spec_lookup(entries.drop_first(), t)
    }
}

/// The index of the first entry for table `t`.
fn find_table(entries: &Vec<(String, Vec<AttrValueTable>)>, t: &str) -> (r: Option<usize>)
    ensures
        match r {
            Option::Some(i) => i < entries@.len() && entries@[i as int].0@ == t@ && spec_lookup(
                entries@,
                t@,
            ) == Option::Some(entries@[i as int].1@),
            Option::None => spec_lookup(entries@, t@) is None,
        },
{
    let n = entries.len();
    proof {
        assert(entries@.subrange(0, n as int) =~= entries@);
    }
    for i in 0..n
        invariant
            spec_lookup(entries@, t@) == spec_lookup(entries@.subrange(i as int, n as int), t@),
            forall|j: int| 0 <= j < i ==> entries@[j].0@ != t@,
    {
        let ghost suffix = entries@.subrange(i as int, n as int);
        if crate::table::str_eq(entries[i].0.as_str(), t) {
            proof {
                assert(suffix[0] == entries@[i as int]);
            }
            return Option::Some(i);
        }
        proof {
            assert(suffix.drop_first() =~= entries@.subrange(i + 1 as int, n as int));
        }
    }
    proof {
        assert(entries@.subrange(n as int, n as int) =~= Seq::<(
            String,
            Vec<AttrValueTable>,
        )>::empty());
    }
    Option::None
}

pub open spec fn item_views(s: Seq<Vec<FieldValue>>) -> Seq<Seq<FieldValue>> {
    s.map_values(|v: Vec<FieldValue>| v@)
}

/// The decode outcome of a list of returned items, in order; the first
/// failing item's error aborts the list.
pub open spec fn spec_decode_items(fields: Seq<FieldSpec>, items: Seq<AttrValueTable>) -> Result<
    Seq<Seq<FieldValue>>,
    RaidenError,
>
    decreases items.len(),
{
    if items.len() == 0 {
        Result::Ok(Seq::empty())
    } else {
        match spec_decode_items(fields, items.drop_last()) {
            Result::Ok(vs) => match spec_decode_item(fields, items.last()@) {
                Result::Ok(v) => Result::Ok(vs.push(v)),
                Result::Err(e) => Result::Err(e),
            },
            Result::Err(e) => Result::Err(e),
        }
    }
}

proof fn lemma_decode_items_err(
    fields: Seq<FieldSpec>,
    items: Seq<AttrValueTable>,
    i: int,
    e: RaidenError,
)
    requires
        0 <= i < items.len(),
        spec_decode_items(fields, items.subrange(0, i)) is Ok,
        spec_decode_item(fields, items[i]@) == Result::<Seq<FieldValue>, RaidenError>::Err(e),
    ensures
        spec_decode_items(fields, items) == Result::<Seq<Seq<FieldValue>>, RaidenError>::Err(e),
    decreases items.len(),
{
    if i == items.len() - 1 {
        assert(items.drop_last() =~= items.subrange(0, i));
    } else {
        assert(items.drop_last().subrange(0, i) =~= items.subrange(0, i));
        assert(items.drop_last()[i] == items[i]);
        lemma_decode_items_err(fields, items.drop_last(), i, e);
    }
}

/// Decodes every returned item; the first failure aborts the whole list.
fn decode_items(fields: &Vec<FieldSpec>, items: &Vec<AttrValueTable>) -> (r: Result<
    Vec<Vec<FieldValue>>,
    RaidenError,
>)
    requires
        forall|i: int| 0 <= i < items@.len() ==> (#[trigger] items@[i]).wf(),
    ensures
        match r {
            Result::Ok(vs) => spec_decode_items(fields@, items@) == Result::<
                Seq<Seq<FieldValue>>,
                RaidenError,
            >::Ok(item_views(vs@)),
            Result::Err(e) => spec_decode_items(fields@, items@) == Result::<
                Seq<Seq<FieldValue>>,
                RaidenError,
            >::Err(e),
        },
{
    let mut out: Vec<Vec<FieldValue>> = Vec::new();
    let n = items.len();
    proof {
        assert(items@.subrange(0, 0) =~= Seq::<AttrValueTable>::empty());
        assert(item_views(out@) =~= Seq::<Seq<FieldValue>>::empty());
    }
    for i in 0..n
        invariant
            out@.len() == i,
            spec_decode_items(fields@, items@.subrange(0, i as int)) == Result::<
                Seq<Seq<FieldValue>>,
                RaidenError,
            >::Ok(item_views(out@)),
    {
        match decode_item(fields, &items[i]) {
            Result::Ok(v) => {
                let ghost v_view = v@;
                let ghost out_before = out@;
                out.push(v);
                proof {
                    let pre = items@.subrange(0, i as int);
                    let now = items@.subrange(0, i + 1 as int);
                    assert(now.drop_last() =~= pre);
                    assert(now.last() == items@[i as int]);
                    assert(out@.drop_last() =~= out_before);
                    assert(item_views(out@) =~= item_views(out_before).push(v_view));
                }
            },
            Result::Err(e) => {
                proof {
                    lemma_decode_items_err(fields@, items@, i as int, e);
                }
                return Result::Err(e);
            },
        }
    }
    proof {
        assert(items@.subrange(0, n as int) =~= items@);
    }
    Result::Ok(out)
}

impl BatchGetResponse {
    /// Every item map the response carries is well formed.
    pub open spec fn wf(&self) -> bool {
        self.responses matches Option::Some(ts) ==> forall|i: int, j: int|
            0 <= i < ts@.len() && 0 <= j < ts@[i].1@.len() ==> (#[trigger] ts@[i].1@[j]).wf()
    }
}

/// Whether the response answers table `t` and all its items decode.
pub open spec fn resp_good(t: Seq<char>, fields: Seq<FieldSpec>, resp: BatchGetResponse) -> bool {
    &&& resp.responses is Some
    &&& spec_lookup(resp.responses->0@, t) is Some
    &&& spec_decode_items(fields, spec_lookup(resp.responses->0@, t)->0) is Ok
}

/// The decoded items a good response contributes.
pub open spec fn resp_decoded(t: Seq<char>, fields: Seq<FieldSpec>, resp: BatchGetResponse) -> Seq<
    Seq<FieldValue>,
> {
    match resp.responses {
        Option::Some(ts) => match spec_lookup(ts@, t) {
            Option::Some(items) => match spec_decode_items(fields, items) {
                Result::Ok(vs) => vs,
                Result::Err(_) => Seq::empty(),
            },
            Option::None => Seq::empty(),
        },
        Option::None => Seq::empty(),
    }
}

/// The keys the store deferred for table `t` in this response.
pub open spec fn resp_unprocessed(t: Seq<char>, resp: BatchGetResponse) -> Seq<AttrValueTable> {
    match resp.unprocessed_keys {
        Option::Some(ts) => match spec_lookup(ts@, t) {
            Option::Some(ks) => ks,
            Option::None => Seq::empty(),
        },
        Option::None => Seq::empty(),
    }
}

/// `a + b`, capped at the largest representable value.
pub open spec fn sat_add(a: u64, b: u64) -> u64 {
    if a + b > u64::MAX {
        u64::MAX
    } else {
        (a + b) as u64
    }
}

/// Why a response fails the operation: an absent response map, an answer
/// that does not name table `t`, or the first item that does not decode.
pub open spec fn resp_error(
    t: Seq<char>,
    fields: Seq<FieldSpec>,
    resp: BatchGetResponse,
    e: RaidenError,
) -> bool {
    ||| (resp.responses is None && (e matches RaidenError::ResourceNotFound { detail } && detail@
        == "resource not found"@))
    ||| (resp.responses is Some && spec_lookup(resp.responses->0@, t) is None && (
    e matches RaidenError::ResourceNotFound { detail } && detail@ == "'"@ + t
        + "' table not found or not active"@))
    ||| (resp.responses is Some && spec_lookup(resp.responses->0@, t) is Some
        && spec_decode_items(fields, spec_lookup(resp.responses->0@, t)->0) == Result::<
        Seq<Seq<FieldValue>>,
        RaidenError,
    >::Err(e))
}

/// How many keys the next chunk takes from a queue of `n`.
pub open spec fn spec_chunk_size(n: nat) -> nat {
    if n < 100 {
        n
    } else {
        100
    }
}

/// How many requests draining a queue of `n` keys issues.
pub open spec fn spec_num_chunks(n: nat) -> nat
    decreases n,
{
    if n == 0 {
        0
    } else {
        1 + spec_num_chunks((n - spec_chunk_size(n)) as nat)
    }
}

/// The key map one tuple is sent as: the partition key, plus the sort key
/// where both a sort-key name and a sort value are present.
pub open spec fn spec_key_map(
    pk: Seq<char>,
    sk: Option<Seq<char>>,
    k: KeyTuple,
) -> Map<Seq<char>, AttributeValue> {
    match (sk, k.sort) {
        (Option::Some(skn), Option::Some(skv)) => Map::empty().insert(pk, k.partition).insert(
            skn,
            skv,
        ),
        _ => Map::empty().insert(pk, k.partition),
    }
}

/// The accumulated decoded items of the consumed responses, when all are
/// good.
pub open spec fn drained_items(
    t: Seq<char>,
    fields: Seq<FieldSpec>,
    rs: Seq<BatchGetResponse>,
) -> Seq<Seq<FieldValue>>
    decreases rs.len(),
{
    if rs.len() == 0 {
        Seq::empty()
    } else {
        drained_items(t, fields, rs.drop_last()) + resp_decoded(t, fields, rs.last())
    }
}

/// The accumulated deferred keys of the consumed responses.
pub open spec fn drained_unprocessed(t: Seq<char>, rs: Seq<BatchGetResponse>) -> Seq<
    AttrValueTable,
>
    decreases rs.len(),
{
    if rs.len() == 0 {
        Seq::empty()
    } else {
        drained_unprocessed(t, rs.drop_last()) + resp_unprocessed(t, rs.last())
    }
}

/// The accumulated capacity metric of the consumed responses.
pub open spec fn drained_capacity(rs: Seq<BatchGetResponse>) -> u64
    decreases rs.len(),
{
    if rs.len() == 0 {
        0u64
    } else {
        sat_add(drained_capacity(rs.drop_last()), rs.last().consumed_capacity)
    }
}

/// Drains one caller-supplied key set against one table: chunks of at most
/// 100 keys leave the pending queue, one request each; each response's items
/// are decoded and accumulated.
pub struct BatchFetcher {
    table_name: String,
    fields: Vec<FieldSpec>,
    pending: Vec<AttrValueTable>,
    items: Vec<Vec<FieldValue>>,
    unprocessed: Vec<AttrValueTable>,
    consumed_capacity: u64,
}

impl BatchFetcher {
    pub closed spec fn spec_table(&self) -> Seq<char> {
        self.table_name@
    }

    pub closed spec fn spec_fields(&self) -> Seq<FieldSpec> {
        self.fields@
    }

    pub closed spec fn spec_pending(&self) -> Seq<AttrValueTable> {
        self.pending@
    }

    pub closed spec fn spec_items(&self) -> Seq<Vec<FieldValue>> {
        self.items@
    }

    pub closed spec fn spec_unprocessed(&self) -> Seq<AttrValueTable> {
        self.unprocessed@
    }

    pub closed spec fn spec_capacity(&self) -> u64 {
        self.consumed_capacity
    }

    /// A fetcher over `keys`, each sent as its key map, with empty
    /// accumulators.
    pub fn new(
        table_name: String,
        partition_key_name: &str,
        sort_key_name: Option<&str>,
        fields: Vec<FieldSpec>,
        keys: Vec<KeyTuple>,
    ) -> (r: BatchFetcher)
        ensures
            r.spec_table() == table_name@,
            r.spec_fields() == fields@,
            r.spec_pending().len() == keys@.len(),
            forall|i: int|
                0 <= i < keys@.len() ==> (#[trigger] r.spec_pending()[i])@ == spec_key_map(
                    partition_key_name@,
                    opt_str_view(sort_key_name),
                    keys@[i],
                ) && r.spec_pending()[i].wf(),
            r.spec_items() == Seq::<Vec<FieldValue>>::empty(),
            r.spec_unprocessed() == Seq::<AttrValueTable>::empty(),
            r.spec_capacity() == 0,
    {
        let ghost all = keys@;
        let mut keys = keys;
        let mut pending: Vec<AttrValueTable> = Vec::new();
        let n = keys.len();
        for i in 0..n
            invariant
                all.len() == n,
                keys@ =~= all.subrange(i as int, n as int),
                pending@.len() == i,
                forall|j: int|
                    0 <= j < i ==> (#[trigger] pending@[j])@ == spec_key_map(
                        partition_key_name@,
                        opt_str_view(sort_key_name),
                        all[j],
                    ) && pending@[j].wf(),
        {
            let k = keys.remove(0);
            let mut m = AttrValueTable::new();
            match (sort_key_name, k.sort) {
                (Option::Some(skn), Option::Some(skv)) => {
                    m.insert(partition_key_name.to_owned(), k.partition);
                    m.insert(skn.to_owned(), skv);
                },
                (_, p) => {
                    m.insert(partition_key_name.to_owned(), k.partition);
                    proof {
                        let k0 = all[i as int];
                        assert(spec_key_map(
                            partition_key_name@,
                            opt_str_view(sort_key_name),
                            k0,
                        ) == Map::empty().insert(partition_key_name@, k0.partition));
                    }
                },
            }
            pending.push(m);
        }
        BatchFetcher {
            table_name,
            fields,
            pending,
            items: Vec::new(),
            unprocessed: Vec::new(),
            consumed_capacity: 0,
        }
    }

    /// Whether the pending queue is drained.
    pub fn is_done(&self) -> (r: bool)
        ensures
            r == (self.spec_pending().len() == 0),
    {
        self.pending.is_empty()
    }

    /// Takes the next chunk of at most 100 keys off the front of the queue
    /// and frames it as one request; nothing is left to send when the queue
    /// is empty.
    pub fn take_chunk(&mut self) -> (r: Option<BatchGetRequest>)
        ensures
            final(self).spec_table() == old(self).spec_table(),
            final(self).spec_fields() == old(self).spec_fields(),
            final(self).spec_items() == old(self).spec_items(),
            final(self).spec_unprocessed() == old(self).spec_unprocessed(),
            final(self).spec_capacity() == old(self).spec_capacity(),
            old(self).spec_pending().len() == 0 ==> r is None && final(self).spec_pending()
                == old(self).spec_pending(),
            old(self).spec_pending().len() > 0 ==> (r matches Option::Some(req)
                && req.table_name@ == old(self).spec_table() && req.keys@ == old(
                self,
            ).spec_pending().subrange(
                0,
                spec_chunk_size(old(self).spec_pending().len()) as int,
            ) && final(self).spec_pending() == old(self).spec_pending().subrange(
                spec_chunk_size(old(self).spec_pending().len()) as int,
                old(self).spec_pending().len() as int,
            )),
    {
        if self.pending.len() == 0 {
            return Option::None;
        }
        let ghost pending0 = self.pending@;
        let n = self.pending.len();
        let k = if n < 100 {
            n
        } else {
            100
        };
        let mut chunk: Vec<AttrValueTable> = Vec::new();
        for i in 0..k
            invariant
                k <= pending0.len(),
                chunk@ =~= pending0.subrange(0, i as int),
                self.pending@ =~= pending0.subrange(i as int, pending0.len() as int),
                self.table_name@ == old(self).spec_table(),
                self.fields@ == old(self).spec_fields(),
                self.items@ == old(self).spec_items(),
                self.unprocessed@ == old(self).spec_unprocessed(),
                self.consumed_capacity == old(self).spec_capacity(),
        {
            let key = self.pending.remove(0);
            chunk.push(key);
            proof {
                assert(chunk@ =~= pending0.subrange(0, i + 1 as int));
                assert(self.pending@ =~= pending0.subrange(i + 1 as int, pending0.len() as int));
            }
        }
        Option::Some(BatchGetRequest { table_name: self.table_name.clone(), keys: chunk })
    }

    /// Folds one store response into the state. On success the returned
    /// items are decoded and accumulated, the keys the store deferred for
    /// this table are added to the caller-facing unprocessed list (they do
    /// not re-enter the pending queue of this invocation), and the capacity
    /// metric grows by the response's, capped at the largest representable
    /// value. On any failure the state is left exactly as it was and the
    /// error says why: an absent response map or an answer without this
    /// table is `ResourceNotFound`, and the first item that does not decode
    /// reports its field's error.
    pub fn absorb_response(&mut self, resp: BatchGetResponse) -> (r: Result<(), RaidenError>)
        requires
            resp.wf(),
        ensures
            final(self).spec_table() == old(self).spec_table(),
            final(self).spec_fields() == old(self).spec_fields(),
            final(self).spec_pending() == old(self).spec_pending(),
            match r {
                Result::Ok(()) => {
                    &&& resp_good(old(self).spec_table(), old(self).spec_fields(), resp)
                    &&& item_views(final(self).spec_items()) == item_views(old(self).spec_items())
                        + resp_decoded(old(self).spec_table(), old(self).spec_fields(), resp)
                    &&& final(self).spec_unprocessed() == old(self).spec_unprocessed()
                        + resp_unprocessed(old(self).spec_table(), resp)
                    &&& final(self).spec_capacity() == sat_add(
                        old(self).spec_capacity(),
                        resp.consumed_capacity,
                    )
                },
                Result::Err(e) => {
                    &&& *final(self) == *old(self)
                    &&& resp_error(old(self).spec_table(), old(self).spec_fields(), resp, e)
                },
            },
    {
        let BatchGetResponse { consumed_capacity, responses, unprocessed_keys } = resp;
        let tables = match responses {
            Option::None => {
                return Result::Err(
                    RaidenError::ResourceNotFound { detail: "resource not found".to_owned() },
                );
            },
            Option::Some(ts) => ts,
        };
        let idx = match find_table(&tables, self.table_name.as_str()) {
            Option::None => {
                let mut detail = "'".to_owned();
                detail.append(self.table_name.as_str());
                detail.append("' table not found or not active");
                return Result::Err(RaidenError::ResourceNotFound { detail });
            },
            Option::Some(i) => i,
        };
        let mut decoded = match decode_items(&self.fields, &tables[idx].1) {
            Result::Err(e) => {
                return Result::Err(e);
            },
            Result::Ok(vs) => vs,
        };
        let ghost decoded_views = item_views(decoded@);
        let ghost items_before = self.items@;
        self.items.append(&mut decoded);
        proof {
            assert(item_views(self.items@) =~= item_views(items_before) + decoded_views);
        }
        match unprocessed_keys {
            Option::Some(mut uts) => {
                match find_table(&uts, self.table_name.as_str()) {
                    Option::Some(ui) => {
                        let (_, mut keys) = uts.remove(ui);
                        self.unprocessed.append(&mut keys);
                    },
                    Option::None => {
                        proof {
                            assert(self.unprocessed@ =~= old(self).spec_unprocessed()
                                + resp_unprocessed(old(self).spec_table(), resp));
                        }
                    },
                }
            },
            Option::None => {
                proof {
                    assert(self.unprocessed@ =~= old(self).spec_unprocessed() + resp_unprocessed(
                        old(self).spec_table(),
                        resp,
                    ));
                }
            },
        }
        if u64::MAX - self.consumed_capacity < consumed_capacity {
            self.consumed_capacity = u64::MAX;
        } else {
            self.consumed_capacity = self.consumed_capacity + consumed_capacity;
        }
        Result::Ok(())
    }

    /// Hands the accumulated results out; the fetcher is consumed.
    pub fn into_output(self) -> (r: BatchGetOutput)
        ensures
            r.items@ == self.spec_items(),
            r.unprocessed_keys@ == self.spec_unprocessed(),
            r.consumed_capacity == self.spec_capacity(),
    {
        let BatchFetcher { items, unprocessed, consumed_capacity, .. } = self;
        BatchGetOutput { items, unprocessed_keys: unprocessed, consumed_capacity }
    }
}

/// Drains the whole key set against a pre-recorded response sequence, one
/// response per issued request in order: the engine loop with the transport
/// factored out. Exactly `spec_num_chunks` requests are issued — the queue
/// alone governs termination, deferred keys never re-enter it. The first
/// failing response aborts the whole run: items accumulated from earlier
/// responses are not handed back beside the error.
pub fn run_batch(fetcher: BatchFetcher, responses: Vec<BatchGetResponse>) -> (r: Result<
    (BatchGetOutput, usize),
    RaidenError,
>)
    requires
        fetcher.spec_items().len() == 0,
        fetcher.spec_unprocessed().len() == 0,
        fetcher.spec_capacity() == 0,
        responses@.len() >= spec_num_chunks(fetcher.spec_pending().len()),
        forall|i: int| 0 <= i < responses@.len() ==> (#[trigger] responses@[i]).wf(),
    ensures
        match r {
            Result::Ok(out) => out.1 == spec_num_chunks(fetcher.spec_pending().len()) && (forall|
                i: int,
            |
                0 <= i < out.1 ==> resp_good(
                    fetcher.spec_table(),
                    fetcher.spec_fields(),
                    #[trigger] responses@[i],
                )) && item_views(out.0.items@) == drained_items(
                fetcher.spec_table(),
                fetcher.spec_fields(),
                responses@.subrange(0, out.1 as int),
            ) && out.0.unprocessed_keys@ == drained_unprocessed(
                fetcher.spec_table(),
                responses@.subrange(0, out.1 as int),
            ) && out.0.consumed_capacity == drained_capacity(responses@.subrange(0, out.1 as int)),
            Result::Err(e) => exists|i: int|
                0 <= i < spec_num_chunks(fetcher.spec_pending().len()) && !resp_good(
                    fetcher.spec_table(),
                    fetcher.spec_fields(),
                    #[trigger] responses@[i],
                ) && (forall|j: int|
                    0 <= j < i ==> resp_good(
                        fetcher.spec_table(),
                        fetcher.spec_fields(),
                        #[trigger] responses@[j],
                    )) && resp_error(fetcher.spec_table(), fetcher.spec_fields(), responses@[i], e),
        },
{
    let ghost rs0 = responses@;
    let ghost n0 = fetcher.spec_pending().len();
    let mut f = fetcher;
    let mut responses = responses;
    let total = responses.len();
    proof {
        assert(rs0.len() == total);
    }
    let mut issued: usize = 0;
    let mut done = f.is_done();
    while !done
        invariant
            done == (f.spec_pending().len() == 0),
            f.spec_table() == fetcher.spec_table(),
            f.spec_fields() == fetcher.spec_fields(),
            responses@ =~= rs0.subrange(issued as int, rs0.len() as int),
            issued + spec_num_chunks(f.spec_pending().len()) == spec_num_chunks(n0),
            issued <= rs0.len(),
            forall|j: int|
                0 <= j < issued ==> resp_good(
                    fetcher.spec_table(),
                    fetcher.spec_fields(),
                    #[trigger] rs0[j],
                ),
            item_views(f.spec_items()) == drained_items(
                fetcher.spec_table(),
                fetcher.spec_fields(),
                rs0.subrange(0, issued as int),
            ),
            f.spec_unprocessed() == drained_unprocessed(
                fetcher.spec_table(),
                rs0.subrange(0, issued as int),
            ),
            f.spec_capacity() == drained_capacity(rs0.subrange(0, issued as int)),
        decreases f.spec_pending().len(),
    {
        let ghost pending_entry = f.spec_pending().len();
        match f.take_chunk() {
            Option::None => {
                proof {
                    assert(false);
                }
            },
            Option::Some(_req) => {
                proof {
                    assert(spec_num_chunks(pending_entry) >= 1);
                    assert(issued < rs0.len());
                }
                let resp = responses.remove(0);
                let ghost consumed = rs0.subrange(0, issued as int);
                let ghost consumed_next = rs0.subrange(0, issued + 1 as int);
                proof {
                    assert(resp == rs0[issued as int]);
                    assert(consumed_next.drop_last() =~= consumed);
                    assert(consumed_next.last() == rs0[issued as int]);
                }
                match f.absorb_response(resp) {
                    Result::Ok(()) => {},
                    Result::Err(e) => {
                        proof {
                            assert(0 <= issued < spec_num_chunks(n0));
                        }
                        return Result::Err(e);
                    },
                }
                issued = issued + 1;
                proof {
                    assert(responses@ =~= rs0.subrange(issued as int, rs0.len() as int));
                }
            },
        }
        done = f.is_done();
    }
    proof {
        assert(f.spec_pending().len() == 0);
        assert(issued == spec_num_chunks(n0));
    }
    let out = f.into_output();
    Result::Ok((out, issued))
}

} // verus!
