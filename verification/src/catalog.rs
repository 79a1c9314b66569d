//! The provider price catalog: an exact-match price list keyed by the
//! composite `{service}/{type}/{operation}` identifier.
use vstd::prelude::*;

use crate::strutil::composite_key;
use crate::strutil::make_composite_key;
use crate::strutil::str_eq;

verus! {

/// One raw entry of the provider's flat catalog listing, before
/// indexing; any of the fields may be missing.
pub struct RawCatalogEntry {
    pub service: Option<String>,
    pub entry_type: Option<String>,
    pub operation: Option<String>,
    pub unit_price: Option<u64>,
}

impl RawCatalogEntry {
    /// True when the three key segments are all present.
    pub open spec fn is_complete(self) -> bool {
        self.service is Some && self.entry_type is Some && self.operation is Some
    }

    /// The composite identifier of a complete entry.
    pub open spec fn key(self) -> Seq<char> {
        composite_key(self.service->0@, self.entry_type->0@, self.operation->0@)
    }
}

/// An indexed catalog entry: the composite identifier and the unit
/// price, which the provider may have omitted.
pub struct CatalogEntry {
    pub entry_id: String,
    pub unit_price: Option<u64>,
}

/// The indexed price list a raw entry sequence denotes: entries missing
/// a key segment are dropped, and on duplicate identifiers the last
/// write wins.
pub open spec fn catalog_index(entries: Seq<RawCatalogEntry>) -> Map<Seq<char>, Option<u64>>
    decreases entries.len(),
{
    if entries.len() == 0 {
        Map::empty()
    } else {
        let rest = catalog_index(entries.drop_last());
        if entries.last().is_complete() {
            rest.insert(entries.last().key(), entries.last().unit_price)
        } else {
            rest
        }
    }
}

/// What an exact-match lookup yields on an indexed catalog: a price
/// only when the identifier is present and carries one.
pub open spec fn catalog_price(index: Map<Seq<char>, Option<u64>>, key: Seq<char>) -> Option<u64> {
    if index.dom().contains(key) {
        index[key]
    } else {
        None
    }
}

/// The price catalog, built once per run and read-only thereafter.
pub struct Catalog {
    entries: Vec<CatalogEntry>,
}

/// The map an entry list denotes, reading front to back.
spec fn entry_list_index(entries: Seq<CatalogEntry>) -> Map<Seq<char>, Option<u64>>
    decreases entries.len(),
{
    if entries.len() == 0 {
        Map::empty()
    } else {
        entry_list_index(entries.drop_last()).insert(
            entries.last().entry_id@,
            entries.last().unit_price,
        )
    }
}

/// A stored entry whose identifier no later entry repeats decides the
/// indexed value of that identifier.
proof fn lemma_entry_list_last_match(entries: Seq<CatalogEntry>, i: int)
    requires
        0 <= i < entries.len(),
        forall|j: int| i < j < entries.len() ==> (#[trigger] entries[j].entry_id@)
            != entries[i].entry_id@,
    ensures
        entry_list_index(entries).dom().contains(entries[i].entry_id@),
        entry_list_index(entries)[entries[i].entry_id@] == entries[i].unit_price,
    decreases entries.len(),
{
    if i < entries.len() - 1 {
        assert(entries.drop_last()[i] == entries[i]);
        lemma_entry_list_last_match(entries.drop_last(), i);
    }
}

/// An identifier no stored entry carries is absent from the index.
proof fn lemma_entry_list_absent(entries: Seq<CatalogEntry>, key: Seq<char>)
    requires
        forall|j: int| 0 <= j < entries.len() ==> (#[trigger] entries[j].entry_id@) != key,
    ensures
        !entry_list_index(entries).dom().contains(key),
    decreases entries.len(),
{
    if entries.len() > 0 {
        lemma_entry_list_absent(entries.drop_last(), key);
    }
}

impl Catalog {
    /// The indexed price list this catalog holds.
    pub closed spec fn view(&self) -> Map<Seq<char>, Option<u64>> {
        entry_list_index(self.entries@)
    }

    /// An empty catalog.
    pub fn new() -> (r: Catalog)
        ensures
            r@ == Map::<Seq<char>, Option<u64>>::empty(),
    {
        Catalog { entries: Vec::new() }
    }

    /// Indexes a raw entry list: entries missing service, type or
    /// operation are dropped; on duplicate identifiers the last write
    /// wins.
    pub fn build(raw: Vec<RawCatalogEntry>) -> (r: Catalog)
        ensures
            r@ == catalog_index(raw@),
    {
        let mut catalog = Catalog { entries: Vec::new() };
        let n = raw.len();
        let mut i: usize = 0;
        while i < n
            invariant
                i <= n,
                n == raw@.len(),
                catalog@ == catalog_index(raw@.take(i as int)),
            decreases n - i,
        {
            let entry = &raw[i];
            let ghost pre = catalog.entries@;
            match (&entry.service, &entry.entry_type, &entry.operation) {
                (Some(service), Some(entry_type), Some(operation)) => {
                    let entry_id = make_composite_key(
                        service.as_str(),
                        entry_type.as_str(),
                        operation.as_str(),
                    );
                    let price = match &entry.unit_price {
                        Some(p) => Some(*p),
                        None => None,
                    };
                    catalog.entries.push(CatalogEntry { entry_id, unit_price: price });
                },
                _ => {},
            }
            proof {
                assert(raw@.take(i + 1 as int).drop_last() =~= raw@.take(i as int));
                if raw@[i as int].is_complete() {
                    assert(catalog.entries@.drop_last() =~= pre);
                }
            }
            i = i + 1;
        }
        proof {
            assert(raw@.take(n as int) =~= raw@);
        }
        catalog
    }

    /// Exact-match lookup on the composite identifier built from the
    /// three segments; returns the unit price, or nothing ("miss") when
    /// the identifier is absent or carries no price. Never fails in any
    /// other way, in particular not on an empty catalog.
    pub fn lookup(&self, service: &str, entry_type: &str, operation: &str) -> (r: Option<u64>)
        ensures
            r == catalog_price(self@, composite_key(service@, entry_type@, operation@)),
    {
        let key = make_composite_key(service, entry_type, operation);
        self.lookup_id(key.as_str())
    }

    /// Exact-match lookup on an already-built composite identifier.
    pub fn lookup_id(&self, entry_id: &str) -> (r: Option<u64>)
        ensures
            r == catalog_price(self@, entry_id@),
    {
        let n = self.entries.len();
        let mut i: usize = n;
        while i > 0
            invariant
                i <= n,
                n == self.entries@.len(),
                forall|j: int| i <= j < n ==> (#[trigger] self.entries@[j].entry_id@) != entry_id@,
            decreases i,
        {
            i = i - 1;
            if str_eq(self.entries[i].entry_id.as_str(), entry_id) {
                proof {
                    lemma_entry_list_last_match(self.entries@, i as int);
                }
                return match &self.entries[i].unit_price {
                    Some(p) => Some(*p),
                    None => None,
                };
            }
        }
        proof {
            lemma_entry_list_absent(self.entries@, entry_id@);
        }
        None
    }

    /// Exact-match lookup distinguishing an absent identifier from one
    /// whose entry carries no price.
    pub fn entry_price(&self, entry_id: &str) -> (r: Option<Option<u64>>)
        ensures
            r == (if self@.dom().contains(entry_id@) {
                Some(self@[entry_id@])
            } else {
                None::<Option<u64>>
            }),
    {
        let n = self.entries.len();
        let mut i: usize = n;
        while i > 0
            invariant
                i <= n,
                n == self.entries@.len(),
                forall|j: int| i <= j < n ==> (#[trigger] self.entries@[j].entry_id@) != entry_id@,
            decreases i,
        {
            i = i - 1;
            if str_eq(self.entries[i].entry_id.as_str(), entry_id) {
                proof {
                    lemma_entry_list_last_match(self.entries@, i as int);
                }
                return Some(self.entries[i].unit_price);
            }
        }
        proof {
            lemma_entry_list_absent(self.entries@, entry_id@);
        }
        None
    }

    /// The number of indexed entries, duplicates included.
    pub fn len(&self) -> usize {
        self.entries.len()
    }
}

} // verus!
