//! The mail store: records kept under their ids in a durable, key-ordered
//! sled tree.
use vstd::prelude::*;
use crate::mail::{
    Mail, MailView, decode_mail, decodes_to, encode_mail, encoded_mail, encodes_nothing, is_prefix,
    view_mails,
};

verus! {

#[verifier::external_type_specification]
#[verifier::external_body]
pub struct ExDb(sled::Db);

#[verifier::external_type_specification]
#[verifier::external_body]
pub struct ExSledError(sled::Error);

/// What a sled tree holds: each key with its value.
pub uninterp spec fn tree_contents(db: sled::Db) -> Map<Seq<u8>, Seq<u8>>;

/// Byte strings in sled's order: lexicographic, a proper prefix first.
pub open spec fn bytes_lt(a: Seq<u8>, b: Seq<u8>) -> bool
    decreases a.len(),
{
    if a.len() == 0 {
        b.len() > 0
    } else if b.len() == 0 {
        false
    } else if a[0] != b[0] {
        a[0] < b[0]
    } else {
        bytes_lt(a.drop_first(), b.drop_first())
    }
}

pub proof fn lemma_bytes_lt_irreflexive(a: Seq<u8>)
    ensures
        !bytes_lt(a, a),
    decreases a.len(),
{
    if a.len() > 0 {
        lemma_bytes_lt_irreflexive(a.drop_first());
    }
}

pub proof fn lemma_bytes_lt_transitive(a: Seq<u8>, b: Seq<u8>, c: Seq<u8>)
    requires
        bytes_lt(a, b),
        bytes_lt(b, c),
    ensures
        bytes_lt(a, c),
    decreases a.len(),
{
    if a.len() > 0 && b.len() > 0 && c.len() > 0 && a[0] == b[0] && b[0] == c[0] {
        lemma_bytes_lt_transitive(a.drop_first(), b.drop_first(), c.drop_first());
    }
}

/// `entries` lists every pair of `contents` once, in ascending key order.
pub open spec fn is_listing(contents: Map<Seq<u8>, Seq<u8>>, entries: Seq<(Seq<u8>, Seq<u8>)>) -> bool {
    &&& forall|i: int, j: int| 0 <= i < j < entries.len() ==> bytes_lt(#[trigger] entries[i].0, #[trigger] entries[j].0)
    &&& forall|i: int| 0 <= i < entries.len() ==> #[trigger] contents.contains_key(entries[i].0)
        && contents[entries[i].0] == entries[i].1
    &&& forall|k: Seq<u8>| #[trigger] contents.contains_key(k) ==> exists|i: int| 0 <= i < entries.len() && entries[i].0 == k
}

pub open spec fn view_entries(v: Seq<(Vec<u8>, Vec<u8>)>) -> Seq<(Seq<u8>, Seq<u8>)> {
    v.map_values(|e: (Vec<u8>, Vec<u8>)| (e.0@, e.1@))
}

/// Relies on sled's `Tree::get`: the value stored under `key`, if any.
#[verifier::external_body]
fn tree_get(db: &sled::Db, key: &[u8]) -> (r: Result<Option<Vec<u8>>, sled::Error>)
    ensures
        r matches Ok(Some(v)) ==> tree_contents(*db).contains_key(key@) && tree_contents(*db)[key@] == v@,
        r matches Ok(None) ==> !tree_contents(*db).contains_key(key@),
{
    db.get(key).map(|o| o.map(|v| v.to_vec()))
}

/// Relies on sled's `Tree::insert`: `key` now holds `value`; it writes no
/// other key, whatever the outcome.
#[verifier::external_body]
fn tree_insert(db: &mut sled::Db, key: &[u8], value: &[u8]) -> (r: Result<(), sled::Error>)
    ensures
        tree_contents(*final(db)).remove(key@) == tree_contents(*old(db)).remove(key@),
        r is Ok ==> tree_contents(*final(db)) == tree_contents(*old(db)).insert(key@, value@),
{
    db.insert(key, value).map(|_| ())
}

/// Relies on sled's `Tree::remove`: `key` no longer holds a value. It
/// writes no other key, and writes nothing where `key` holds no value,
/// whatever the outcome.
#[verifier::external_body]
fn tree_remove(db: &mut sled::Db, key: &[u8]) -> (r: Result<(), sled::Error>)
    ensures
        tree_contents(*final(db)).remove(key@) == tree_contents(*old(db)).remove(key@),
        !tree_contents(*old(db)).contains_key(key@) ==> tree_contents(*final(db)) == tree_contents(
            *old(db),
        ),
        r is Ok ==> tree_contents(*final(db)) == tree_contents(*old(db)).remove(key@),
{
    db.remove(key).map(|_| ())
}

/// Relies on sled's `Tree::iter`: every pair, in ascending key order.
#[verifier::external_body]
fn tree_entries(db: &sled::Db) -> (r: Result<Vec<(Vec<u8>, Vec<u8>)>, sled::Error>)
    ensures
        r matches Ok(v) ==> is_listing(tree_contents(*db), view_entries(v@)),
{
    db.iter().map(|e| e.map(|(k, v)| (k.to_vec(), v.to_vec()))).collect()
}

/// Why a store operation failed.
#[derive(Debug, Clone, Copy, PartialEq, Eq, Structural)]
pub enum StoreError {
    /// The underlying engine reported a failure.
    Engine,
    /// A stored value is not the encoding of any record.
    Corrupt,
}

/// The mail records, keyed by the UTF-8 bytes of their ids.
pub struct MailStore {
    db: sled::Db,
}

/// The key under which the record with id `id` is stored.
pub open spec fn key_of(id: Seq<char>) -> Seq<u8> {
    vstd::utf8::encode_utf8(id)
}

/// The records in key order from position `offset`, at most `limit` of them.
pub open spec fn window<T>(s: Seq<T>, offset: int, limit: int) -> Seq<T> {
    let start = if offset < s.len() { offset } else { s.len() as int };
    let end = if start + limit < s.len() { start + limit } else { s.len() as int };
    s.subrange(start, end)
}

impl MailStore {
    /// The stored bytes, by key.
    pub closed spec fn contents(&self) -> Map<Seq<u8>, Seq<u8>> {
        tree_contents(self.db)
    }

    pub fn new(db: sled::Db) -> (r: MailStore)
        ensures
            r.contents() == tree_contents(db),
    {
        MailStore { db }
    }

    /// Stores `m` under its id, replacing any record there; no other key
    /// changes. Fails only where the engine does.
    pub fn put(&mut self, m: &Mail) -> (r: Result<(), StoreError>)
        ensures
            final(self).contents().remove(key_of(m.id@)) == old(self).contents().remove(key_of(m.id@)),
            r is Ok ==> final(self).contents() == old(self).contents().insert(
                key_of(m.id@),
                encoded_mail(m@),
            ),
            r matches Err(e) ==> e == StoreError::Engine,
    {
        let value = match encode_mail(m) {
            Ok(v) => v,
            Err(_) => {
                return Err(StoreError::Engine);
            },
        };
        let key = m.id.as_str().as_bytes();
        match tree_insert(&mut self.db, key, value.as_slice()) {
            Ok(()) => Ok(()),
            Err(_) => Err(StoreError::Engine),
        }
    }

    /// The record stored under `id`: `None` where there is none, `Corrupt`
    /// where the stored bytes begin with the encoding of no record.
    pub fn get(&self, id: &str) -> (r: Result<Option<Mail>, StoreError>)
        ensures
            r matches Ok(Some(m)) ==> self.contents().contains_key(key_of(id@)) && decodes_to(
                self.contents()[key_of(id@)],
                m@,
            ),
            r matches Ok(None) ==> !self.contents().contains_key(key_of(id@)),
            r matches Err(e) ==> e == StoreError::Engine || (e == StoreError::Corrupt
                && self.contents().contains_key(key_of(id@)) && encodes_nothing(
                self.contents()[key_of(id@)],
            )),
    {
        let key = id.as_bytes();
        match tree_get(&self.db, key) {
            Err(_) => Err(StoreError::Engine),
            Ok(found) => record_from(found),
        }
    }

    /// Removes the record under `id`. Succeeds whenever the engine's write
    /// does, whether or not a record was there. No other key changes, and
    /// nothing changes where `id` holds no record, whatever the outcome.
    pub fn delete(&mut self, id: &str) -> (r: Result<(), StoreError>)
        ensures
            final(self).contents().remove(key_of(id@)) == old(self).contents().remove(key_of(id@)),
            !old(self).contents().contains_key(key_of(id@)) ==> final(self).contents() == old(
                self,
            ).contents(),
            r is Ok ==> final(self).contents() == old(self).contents().remove(key_of(id@)),
            r matches Err(e) ==> e == StoreError::Engine,
    {
        match tree_remove(&mut self.db, id.as_bytes()) {
            Ok(()) => Ok(()),
            Err(_) => Err(StoreError::Engine),
        }
    }

    /// The records in ascending key order, skipping `offset` of them and
    /// taking at most `limit`. A stored value in that window that begins
    /// with the encoding of no record fails the whole listing with `Corrupt`.
    pub fn list(&self, offset: usize, limit: usize) -> (r: Result<Vec<Mail>, StoreError>)
        ensures
            r matches Ok(v) ==> exists|e: Seq<(Seq<u8>, Seq<u8>)>|
                #[trigger] is_listing(self.contents(), e) && page_of(e, offset as int, limit as int, view_mails(v@)),
            r matches Err(err) ==> err == StoreError::Engine || (err == StoreError::Corrupt && exists|
                e: Seq<(Seq<u8>, Seq<u8>)>,
            |
                #[trigger] is_listing(self.contents(), e) && window_has_corrupt(e, offset as int, limit as int)),
            forall|e: Seq<(Seq<u8>, Seq<u8>)>|
                #![trigger is_listing(self.contents(), e)]
                is_listing(self.contents(), e) && !window_has_corrupt(e, offset as int, limit as int)
                    ==> !(r == Err::<Vec<Mail>, StoreError>(StoreError::Corrupt)),
            forall|e: Seq<(Seq<u8>, Seq<u8>)>|
                #![trigger is_listing(self.contents(), e)]
                is_listing(self.contents(), e) && window_has_corrupt(e, offset as int, limit as int) ==> r is Err,
    {
        match tree_entries(&self.db) {
            Ok(entries) => {
                let r = page_from(&entries, offset, limit);
                proof {
                    assert(is_listing(self.contents(), view_entries(entries@)));
                    assert forall|e: Seq<(Seq<u8>, Seq<u8>)>|
                        #![trigger is_listing(self.contents(), e)]
                        is_listing(self.contents(), e) implies e == view_entries(entries@) by {
                        lemma_listing_unique(self.contents(), e, view_entries(entries@));
                    }
                }
                proof {
                    let ev = view_entries(entries@);
                    if window_has_corrupt(ev, offset as int, limit as int) && r is Ok {
                        let v = r->Ok_0;
                        let w = window(ev, offset as int, limit as int);
                        let i = choose|i: int| 0 <= i < w.len() && encodes_nothing(#[trigger] w[i].1);
                        assert(decodes_to(w[i].1, view_mails(v@)[i]));
                        assert(is_prefix(encoded_mail(view_mails(v@)[i]), w[i].1));
                    }
                }
                r
            },
            Err(_) => Err(StoreError::Engine),
        }
    }
}

/// The record in a value read from the store, if one was found.
pub fn record_from(found: Option<Vec<u8>>) -> (r: Result<Option<Mail>, StoreError>)
    ensures
        found is None <==> r == Ok::<Option<Mail>, StoreError>(None),
        found matches Some(v) ==> (!encodes_nothing(v@) ==> (r matches Ok(Some(m)) && decodes_to(v@, m@))),
        r matches Ok(Some(m)) ==> (found matches Some(v) && decodes_to(v@, m@)),
        r matches Err(e) ==> e == StoreError::Corrupt && (found matches Some(v) && encodes_nothing(v@)),
{
    match found {
        None => Ok(None),
        Some(v) => match decode_mail(v.as_slice()) {
            Ok(m) => Ok(Some(m)),
            Err(_) => Err(StoreError::Corrupt),
        },
    }
}

/// The window of `entries` from position `offset`, at most `limit` long,
/// decoded; `Corrupt` where a value in it begins with the encoding of no
/// record.
pub fn page_from(entries: &Vec<(Vec<u8>, Vec<u8>)>, offset: usize, limit: usize) -> (r: Result<
    Vec<Mail>,
    StoreError,
>)
    ensures
        r matches Ok(v) ==> page_of(view_entries(entries@), offset as int, limit as int, view_mails(v@)),
        r matches Err(e) ==> e == StoreError::Corrupt && window_has_corrupt(
            view_entries(entries@),
            offset as int,
            limit as int,
        ),
        !window_has_corrupt(view_entries(entries@), offset as int, limit as int) ==> r is Ok,
{
    let ghost ev = view_entries(entries@);
    let n = entries.len();
    let start = if offset < n { offset } else { n };
    let end = if limit < n - start { start + limit } else { n };
    let ghost w = window(ev, offset as int, limit as int);
    assert(w =~= ev.subrange(start as int, end as int));
    let mut out: Vec<Mail> = Vec::new();
    let mut i: usize = start;
    while i < end
        invariant
            start <= i <= end <= n == entries@.len(),
            ev == view_entries(entries@),
            w == window(ev, offset as int, limit as int),
            w == ev.subrange(start as int, end as int),
            out@.len() == i - start,
            forall|j: int| 0 <= j < i - start ==> decodes_to(w[j].1, #[trigger] view_mails(out@)[j]),
        decreases end - i,
    {
        match decode_mail(entries[i].1.as_slice()) {
            Ok(m) => {
                let ghost before = out@;
                out.push(m);
                assert(view_mails(out@) =~= view_mails(before).push(m@));
                assert(w[i - start].1 == entries@[i as int].1@);
            },
            Err(_) => {
                assert(w[i - start].1 == entries@[i as int].1@);
                assert(encodes_nothing(w[i - start].1));
                assert(window_has_corrupt(ev, offset as int, limit as int));
                return Err(StoreError::Corrupt);
            },
        }
        i = i + 1;
    }
    assert(page_of(ev, offset as int, limit as int, view_mails(out@)));
    Ok(out)
}

/// `mails` are the records of the listing's window, in order.
pub open spec fn page_of(
    entries: Seq<(Seq<u8>, Seq<u8>)>,
    offset: int,
    limit: int,
    mails: Seq<MailView>,
) -> bool {
    let w = window(entries, offset, limit);
    mails.len() == w.len() && forall|i: int| 0 <= i < w.len() ==> decodes_to(w[i].1, #[trigger] mails[i])
}

/// Some value in the listing's window encodes no record.
pub open spec fn window_has_corrupt(entries: Seq<(Seq<u8>, Seq<u8>)>, offset: int, limit: int) -> bool {
    let w = window(entries, offset, limit);
    exists|i: int| 0 <= i < w.len() && encodes_nothing(#[trigger] w[i].1)
}

/// Storing `m` and reading back its id gives `m`: after the put its key is
/// present, its bytes encode a record, and any record read from them is `m`.
pub proof fn law_put_then_get(before: Map<Seq<u8>, Seq<u8>>, m: MailView, d: MailView)
    ensures
        ({
            let after = before.insert(key_of(m.id), encoded_mail(m));
            &&& after.contains_key(key_of(m.id))
            &&& !encodes_nothing(after[key_of(m.id)])
            &&& decodes_to(after[key_of(m.id)], d) ==> d == m
        }),
{
    let after = before.insert(key_of(m.id), encoded_mail(m));
    assert(after[key_of(m.id)].subrange(0, encoded_mail(m).len() as int) =~= encoded_mail(m));
    assert(is_prefix(encoded_mail(m), after[key_of(m.id)]));
}

/// After a delete of `id`, no record is stored under it: a read finds none.
pub proof fn law_delete_then_get(before: Map<Seq<u8>, Seq<u8>>, id: Seq<char>)
    ensures
        !before.remove(key_of(id)).contains_key(key_of(id)),
{
}

/// A map has one listing: two listings of the same contents are equal.
pub proof fn lemma_listing_unique(
    c: Map<Seq<u8>, Seq<u8>>,
    e1: Seq<(Seq<u8>, Seq<u8>)>,
    e2: Seq<(Seq<u8>, Seq<u8>)>,
)
    requires
        is_listing(c, e1),
        is_listing(c, e2),
    ensures
        e1 == e2,
    decreases e1.len(),
{
    if e1.len() == 0 {
        if e2.len() > 0 {
            assert(c.contains_key(e2[0].0));
        }
        assert(e1 =~= e2);
        return;
    }
    assert(c.contains_key(e1[0].0));
    assert(e2.len() > 0);
    let k1 = e1[0].0;
    let k2 = e2[0].0;
    assert(c.contains_key(k2));
    if k1 != k2 {
        let j = choose|j: int| 0 <= j < e2.len() && e2[j].0 == k1;
        let i = choose|i: int| 0 <= i < e1.len() && e1[i].0 == k2;
        assert(bytes_lt(e2[0].0, e2[j].0));
        assert(bytes_lt(e1[0].0, e1[i].0));
        lemma_bytes_lt_transitive(k1, k2, k1);
        lemma_bytes_lt_irreflexive(k1);
    }
    let c2 = c.remove(k1);
    let f1 = e1.drop_first();
    let f2 = e2.drop_first();
    assert forall|i: int| 0 <= i < f1.len() implies #[trigger] c2.contains_key(f1[i].0) && c2[f1[i].0] == f1[i].1 by {
        assert(bytes_lt(e1[0].0, e1[i + 1].0));
        lemma_bytes_lt_irreflexive(k1);
        assert(c.contains_key(e1[i + 1].0));
    }
    assert forall|i: int| 0 <= i < f2.len() implies #[trigger] c2.contains_key(f2[i].0) && c2[f2[i].0] == f2[i].1 by {
        assert(bytes_lt(e2[0].0, e2[i + 1].0));
        lemma_bytes_lt_irreflexive(k1);
        assert(c.contains_key(e2[i + 1].0));
    }
    assert forall|k: Seq<u8>| #[trigger] c2.contains_key(k) implies exists|i: int| 0 <= i < f1.len() && f1[i].0 == k by {
        assert(c.contains_key(k));
        let i = choose|i: int| 0 <= i < e1.len() && e1[i].0 == k;
        assert(f1[i - 1].0 == k);
    }
    assert forall|k: Seq<u8>| #[trigger] c2.contains_key(k) implies exists|i: int| 0 <= i < f2.len() && f2[i].0 == k by {
        assert(c.contains_key(k));
        let i = choose|i: int| 0 <= i < e2.len() && e2[i].0 == k;
        assert(f2[i - 1].0 == k);
    }
    assert forall|i: int, j: int| 0 <= i < j < f1.len() implies bytes_lt(#[trigger] f1[i].0, #[trigger] f1[j].0) by {
        assert(bytes_lt(e1[i + 1].0, e1[j + 1].0));
    }
    assert forall|i: int, j: int| 0 <= i < j < f2.len() implies bytes_lt(#[trigger] f2[i].0, #[trigger] f2[j].0) by {
        assert(bytes_lt(e2[i + 1].0, e2[j + 1].0));
    }
    assert(is_listing(c2, f1));
    assert(is_listing(c2, f2));
    lemma_listing_unique(c2, f1, f2);
    assert(e1[0] == e2[0]);
    assert(e1 =~= seq![e1[0]] + f1);
    assert(e2 =~= seq![e2[0]] + f2);
}

} // verus!
