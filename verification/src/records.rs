use vstd::prelude::*;
use std::collections::HashMap;
use crate::text::strings_view;
use crate::types::RNSDNSERRORS;

verus! {

/// Seconds for which a record is valid from the time it is added: 365 days.
pub const RECORD_EXPIRY: i64 = 31_536_000;

/// One authority's word for a record: the authority's address and its
/// signature over the record.
pub struct VerifierSigning {
    pub destination: u128,
    pub signature: Vec<u8>,
}

/// An authority that vouches for records. Trust level 0 is the highest.
pub struct Verifier {
    pub name: String,
    pub destination: u128,
    pub trust_level: u32,
    pub public_key: Vec<u8>,
}

/// One record: a domain name, the addresses it points to, the key that the
/// addresses derive from, the times (in seconds) at which the record was
/// last updated and at which it ends, and the signatures over it.
pub struct DnsEntry {
    pub name: String,
    pub destinations: Vec<u128>,
    pub public_key: Vec<u8>,
    pub timestamp: i64,
    pub expiry: i64,
    pub signature: Vec<u8>,
    pub verifications: Vec<VerifierSigning>,
}

/// A `VerifierSigning` as plain values.
pub struct VerifierSigningView {
    pub destination: u128,
    pub signature: Seq<u8>,
}

/// A `DnsEntry` as plain values.
pub struct DnsEntryView {
    pub name: Seq<char>,
    pub destinations: Seq<u128>,
    pub public_key: Seq<u8>,
    pub timestamp: i64,
    pub expiry: i64,
    pub signature: Seq<u8>,
    pub verifications: Seq<VerifierSigningView>,
}

impl View for VerifierSigning {
    type V = VerifierSigningView;

    open spec fn view(&self) -> VerifierSigningView {
        VerifierSigningView { destination: self.destination, signature: self.signature@ }
    }
}

impl View for DnsEntry {
    type V = DnsEntryView;

    open spec fn view(&self) -> DnsEntryView {
        DnsEntryView {
            name: self.name@,
            destinations: self.destinations@,
            public_key: self.public_key@,
            timestamp: self.timestamp,
            expiry: self.expiry,
            signature: self.signature@,
            verifications: Seq::new(
                self.verifications@.len(),
                |i: int| self.verifications@[i]@,
            ),
        }
    }
}

/// The records of a sequence, each as plain values.
pub open spec fn entries_view(v: Seq<DnsEntry>) -> Seq<DnsEntryView> {
    Seq::new(v.len(), |i: int| v[i]@)
}

/// Index of the first record from `from` on that has the name, if any has.
pub open spec fn position(entries: Seq<DnsEntryView>, name: Seq<char>, from: int) -> Option<int>
    decreases entries.len() - from,
{
    if from < 0 || from >= entries.len() {
        None
    } else if entries[from].name == name {
        Some(from)
    } else {
        position(entries, name, from + 1)
    }
}

/// The record that `add_entry` makes.
pub open spec fn fresh_entry(
    name: Seq<char>,
    destination: u128,
    public_key: Seq<u8>,
    signature: Seq<u8>,
    now: i64,
) -> DnsEntryView {
    DnsEntryView {
        name,
        destinations: seq![destination],
        public_key,
        timestamp: now,
        expiry: (now + RECORD_EXPIRY) as i64,
        signature,
        verifications: Seq::empty(),
    }
}

pub proof fn lemma_position(entries: Seq<DnsEntryView>, name: Seq<char>, from: int)
    requires
        0 <= from,
    ensures
        match position(entries, name, from) {
            Some(k) => from <= k < entries.len() && entries[k].name == name && forall|i: int|
                from <= i < k ==> entries[i].name != name,
            None => forall|i: int| from <= i < entries.len() ==> entries[i].name != name,
        },
    decreases entries.len() - from,
{
    if from < entries.len() && entries[from].name != name {
        lemma_position(entries, name, from + 1);
    }
}

impl VerifierSigning {
    /// A copy of the signing.
    pub fn duplicate(&self) -> (r: Self)
        ensures
            r@ == self@,
    {
        VerifierSigning { destination: self.destination, signature: copy_bytes(&self.signature) }
    }
}

/// A copy of the bytes.
pub fn copy_bytes(bytes: &Vec<u8>) -> (r: Vec<u8>)
    ensures
        r@ == bytes@,
{
    let mut r: Vec<u8> = Vec::new();
    let mut i: usize = 0;
    while i < bytes.len()
        invariant
            i <= bytes@.len(),
            r@ == bytes@.take(i as int),
        decreases bytes@.len() - i,
    {
        r.push(bytes[i]);
        assert(r@ =~= bytes@.take(i + 1));
        i += 1;
    }
    assert(bytes@.take(i as int) =~= bytes@);
    r
}

impl DnsEntry {
    /// A copy of the record.
    pub fn duplicate(&self) -> (r: Self)
        ensures
            r@ == self@,
    {
        let mut destinations: Vec<u128> = Vec::new();
        let mut i: usize = 0;
        while i < self.destinations.len()
            invariant
                i <= self.destinations@.len(),
                destinations@ == self.destinations@.take(i as int),
            decreases self.destinations@.len() - i,
        {
            destinations.push(self.destinations[i]);
            assert(destinations@ =~= self.destinations@.take(i + 1));
            i += 1;
        }
        assert(self.destinations@.take(i as int) =~= self.destinations@);
        let mut verifications: Vec<VerifierSigning> = Vec::new();
        let mut j: usize = 0;
        while j < self.verifications.len()
            invariant
                j <= self.verifications@.len(),
                verifications@.len() == j,
                forall|k: int| 0 <= k < j ==> verifications@[k]@ == self.verifications@[k]@,
            decreases self.verifications@.len() - j,
        {
            verifications.push(self.verifications[j].duplicate());
            j += 1;
        }
        let r = DnsEntry {
            name: self.name.clone(),
            destinations,
            public_key: copy_bytes(&self.public_key),
            timestamp: self.timestamp,
            expiry: self.expiry,
            signature: copy_bytes(&self.signature),
            verifications,
        };
        assert(r@.verifications =~= self@.verifications);
        r
    }

    /// Whether the record's end lies after `now`.
    pub fn is_entry_expired(&self, now: i64) -> (r: bool)
        ensures
            r == (self.expiry > now),
    {
        self.expiry > now
    }

    /// Sets the time at which the record was last updated.
    pub fn update_timestamp(&mut self, timestamp: i64)
        ensures
            final(self)@ == (DnsEntryView { timestamp, ..old(self)@ }),
    {
        self.timestamp = timestamp;
    }
}

/// The records by domain name, and beside them an index from each address
/// to the names that point to it. No two records have the same name. The
/// index is as current as its last rebuild: adding, replacing and removing a
/// record leave it as it is.
pub struct DnsEntryStore {
    pub forward_index: Vec<DnsEntry>,
    pub reverse_index: HashMap<u128, Vec<String>>,
}

/// An index from addresses to names as plain values.
pub open spec fn reverse_view(m: Map<u128, Vec<String>>) -> Map<u128, Seq<Seq<char>>> {
    Map::new(|k: u128| m.contains_key(k), |k: u128| strings_view(m[k]@))
}

/// The index with `name` listed under `dest`, once.
pub open spec fn index_add(m: Map<u128, Seq<Seq<char>>>, dest: u128, name: Seq<char>) -> Map<
    u128,
    Seq<Seq<char>>,
> {
    let listed = if m.contains_key(dest) {
        m[dest]
    } else {
        Seq::empty()
    };
    m.insert(
        dest,
        if listed.contains(name) {
            listed
        } else {
            listed.push(name)
        },
    )
}

/// The index with `name` listed under each of `dests`.
pub open spec fn index_entry(m: Map<u128, Seq<Seq<char>>>, name: Seq<char>, dests: Seq<u128>) -> Map<
    u128,
    Seq<Seq<char>>,
>
    decreases dests.len(),
{
    if dests.len() == 0 {
        m
    } else {
        index_add(index_entry(m, name, dests.drop_last()), dests.last(), name)
    }
}

/// The index of a sequence of records: under each address that a record
/// points to, the names of the records that point to it, in the records'
/// order.
pub open spec fn index_all(entries: Seq<DnsEntryView>) -> Map<u128, Seq<Seq<char>>>
    decreases entries.len(),
{
    if entries.len() == 0 {
        Map::empty()
    } else {
        index_entry(
            index_all(entries.drop_last()),
            entries.last().name,
            entries.last().destinations,
        )
    }
}

/// Whether the list holds the name.
pub fn holds_name(list: &Vec<String>, name: &str) -> (r: bool)
    ensures
        r == strings_view(list@).contains(name@),
{
    let mut i: usize = 0;
    while i < list.len()
        invariant
            i <= list@.len(),
            forall|k: int| 0 <= k < i ==> strings_view(list@)[k] != name@,
        decreases list@.len() - i,
    {
        if list[i].as_str().eq(name) {
            assert(strings_view(list@)[i as int] == name@);
            return true;
        }
        i += 1;
    }
    false
}

impl DnsEntryStore {
    /// The records, in the order in which they were added.
    pub open spec fn entries(&self) -> Seq<DnsEntryView> {
        entries_view(self.forward_index@)
    }

    /// The index from addresses to names.
    pub open spec fn reverse(&self) -> Map<u128, Seq<Seq<char>>> {
        reverse_view(self.reverse_index@)
    }

    /// No two records have the same name.
    pub open spec fn wf(&self) -> bool {
        forall|i: int, j: int|
            0 <= i < j < self.entries().len() ==> self.entries()[i].name != self.entries()[j].name
    }

    /// A store without records.
    pub fn new() -> (s: Self)
        ensures
            s.entries() == Seq::<DnsEntryView>::empty(),
            s.reverse() == Map::<u128, Seq<Seq<char>>>::empty(),
            s.wf(),
    {
        let s = DnsEntryStore { forward_index: Vec::new(), reverse_index: HashMap::new() };
        assert(s.entries() =~= Seq::<DnsEntryView>::empty());
        assert(s.reverse() =~= Map::<u128, Seq<Seq<char>>>::empty());
        s
    }

    /// The names listed under an address, if the index holds the address.
    pub fn reverse_lookup(&self, destination: u128) -> (r: Option<&Vec<String>>)
        ensures
            match r {
                Some(names) => self.reverse().contains_key(destination) && strings_view(names@)
                    == self.reverse()[destination],
                None => !self.reverse().contains_key(destination),
            },
    {
        broadcast use vstd::std_specs::hash::group_hash_axioms;

        self.reverse_index.get(&destination)
    }

    /// Makes the index anew from the records: each name is listed once under
    /// each address that its record points to.
    pub fn rebuild_reverse_index(&mut self)
        ensures
            final(self).entries() == old(self).entries(),
            final(self).reverse() == index_all(old(self).entries()),
    {
        broadcast use vstd::std_specs::hash::group_hash_axioms;

        self.reverse_index = HashMap::new();
        assert(self.reverse() =~= Map::<u128, Seq<Seq<char>>>::empty());
        let n = self.forward_index.len();
        let mut i: usize = 0;
        assert(self.entries().take(0) =~= Seq::<DnsEntryView>::empty());
        while i < n
            invariant
                self.forward_index == old(self).forward_index,
                n == self.forward_index@.len(),
                i <= n,
                self.reverse() == index_all(self.entries().take(i as int)),
            decreases n - i,
        {
            let name = self.forward_index[i].name.clone();
            let m = self.forward_index[i].destinations.len();
            let ghost dests = self.entries()[i as int].destinations;
            let ghost base = index_all(self.entries().take(i as int));
            let mut j: usize = 0;
            assert(dests.take(0) =~= Seq::<u128>::empty());
            while j < m
                invariant
                    self.forward_index == old(self).forward_index,
                    n == self.forward_index@.len(),
                    i < n,
                    name@ == self.entries()[i as int].name,
                    dests == self.entries()[i as int].destinations,
                    m == dests.len(),
                    j <= m,
                    self.reverse() == index_entry(base, name@, dests.take(j as int)),
                decreases m - j,
            {
                let dest = self.forward_index[i].destinations[j];
                let ghost before = self.reverse();
                let mut list = match self.reverse_index.remove(&dest) {
                    Some(found) => found,
                    None => Vec::new(),
                };
                let ghost listed = strings_view(list@);
                if !holds_name(&list, name.as_str()) {
                    list.push(name.clone());
                    assert(strings_view(list@) =~= listed.push(name@));
                }
                self.reverse_index.insert(dest, list);
                proof {
                    assert(listed =~= if before.contains_key(dest) {
                        before[dest]
                    } else {
                        Seq::empty()
                    });
                    assert(self.reverse() =~= index_add(before, dest, name@));
                    assert(dests.take(j + 1).drop_last() =~= dests.take(j as int));
                }
                j += 1;
            }
            proof {
                assert(dests.take(m as int) =~= dests);
                assert(self.entries().take(i + 1).drop_last() =~= self.entries().take(i as int));
            }
            i += 1;
        }
        assert(self.entries().take(n as int) =~= self.entries());
    }

    /// Index of the record with the name, if there is one.
    pub fn find(&self, name: &str) -> (r: Option<usize>)
        ensures
            match r {
                Some(k) => position(self.entries(), name@, 0) == Some(k as int),
                None => position(self.entries(), name@, 0).is_none(),
            },
    {
        let mut i: usize = 0;
        while i < self.forward_index.len()
            invariant
                i <= self.forward_index@.len(),
                position(self.entries(), name@, 0) == position(self.entries(), name@, i as int),
            decreases self.forward_index@.len() - i,
        {
            if self.forward_index[i].name.as_str().eq(name) {
                return Some(i);
            }
            i += 1;
        }
        None
    }

    /// Adds a record for a name that has none: one address, the given key and
    /// signature, last updated at `now` and valid for a year from then, with
    /// no authority's word yet. A name that has a record is refused, and the
    /// store stays as it is.
    pub fn add_entry(
        &mut self,
        name: &String,
        destination: u128,
        public_key: Vec<u8>,
        signature: Vec<u8>,
        now: i64,
    ) -> (r: Result<(), RNSDNSERRORS>)
        requires
            now <= i64::MAX - RECORD_EXPIRY,
        ensures
            match r {
                Ok(_) => {
                    &&& position(old(self).entries(), name@, 0).is_none()
                    &&& final(self).entries() == old(self).entries().push(
                        fresh_entry(name@, destination, public_key@, signature@, now),
                    )
                },
                Err(e) => {
                    &&& e == RNSDNSERRORS::AlreadyExists
                    &&& position(old(self).entries(), name@, 0).is_some()
                    &&& final(self).entries() == old(self).entries()
                },
            },
            old(self).wf() ==> final(self).wf(),
            final(self).reverse() == old(self).reverse(),
    {
        if self.find(name.as_str()).is_some() {
            return Err(RNSDNSERRORS::AlreadyExists);
        }
        let mut destinations: Vec<u128> = Vec::new();
        destinations.push(destination);
        let entry = DnsEntry {
            name: name.clone(),
            destinations,
            public_key,
            timestamp: now,
            expiry: now + RECORD_EXPIRY,
            signature,
            verifications: Vec::new(),
        };
        proof {
            assert(entry@.destinations =~= seq![destination]);
            assert(entry@.verifications =~= Seq::<VerifierSigningView>::empty());
            lemma_position(self.entries(), name@, 0);
        }
        self.forward_index.push(entry);
        assert(self.entries() =~= old(self).entries().push(entry@));
        Ok(())
    }

    /// Puts the record in the place of the record of its name, or behind the
    /// others where its name has none.
    pub fn override_entry(&mut self, entry: DnsEntry)
        ensures
            final(self).entries() == match position(old(self).entries(), entry@.name, 0) {
                Some(k) => old(self).entries().update(k, entry@),
                None => old(self).entries().push(entry@),
            },
            old(self).wf() ==> final(self).wf(),
            final(self).reverse() == old(self).reverse(),
    {
        proof {
            lemma_position(self.entries(), entry@.name, 0);
        }
        match self.find(entry.name.as_str()) {
            Some(k) => {
                self.forward_index.set(k, entry);
                assert(self.entries() =~= old(self).entries().update(k as int, entry@));
            },
            None => {
                self.forward_index.push(entry);
                assert(self.entries() =~= old(self).entries().push(entry@));
            },
        }
    }

    /// Takes out the record of the name, if there is one.
    pub fn remove_domain(&mut self, domain: &str)
        ensures
            final(self).entries() == match position(old(self).entries(), domain@, 0) {
                Some(k) => old(self).entries().remove(k),
                None => old(self).entries(),
            },
            old(self).wf() ==> final(self).wf() && position(final(self).entries(), domain@, 0)
                .is_none(),
            final(self).reverse() == old(self).reverse(),
    {
        proof {
            lemma_position(self.entries(), domain@, 0);
        }
        match self.find(domain) {
            Some(k) => {
                let _ = self.forward_index.remove(k);
                assert(self.entries() =~= old(self).entries().remove(k as int));
                proof {
                    if old(self).wf() {
                        assert forall|i: int| 0 <= i < self.entries().len() implies self.entries()[i].name
                            != domain@ by {
                            if i < k {
                                assert(self.entries()[i] == old(self).entries()[i]);
                            } else {
                                assert(self.entries()[i] == old(self).entries()[i + 1]);
                            }
                        }
                        lemma_position_none(self.entries(), domain@, 0);
                    }
                }
            },
            None => {},
        }
    }

    /// A copy of every record, in the order in which they are stored.
    pub fn get_active_forward_index(&self) -> (r: Vec<DnsEntry>)
        ensures
            entries_view(r@) == self.entries(),
    {
        let mut r: Vec<DnsEntry> = Vec::new();
        let mut i: usize = 0;
        while i < self.forward_index.len()
            invariant
                i <= self.forward_index@.len(),
                r@.len() == i,
                forall|k: int| 0 <= k < i ==> r@[k]@ == self.forward_index@[k]@,
            decreases self.forward_index@.len() - i,
        {
            r.push(self.forward_index[i].duplicate());
            i += 1;
        }
        assert(entries_view(r@) =~= self.entries());
        r
    }

    /// The record of the name, if there is one.
    pub fn lookup(&self, name: &str) -> (r: Option<&DnsEntry>)
        ensures
            match r {
                Some(e) => position(self.entries(), name@, 0) matches Some(k) && e@
                    == self.entries()[k],
                None => position(self.entries(), name@, 0).is_none(),
            },
    {
        proof {
            lemma_position(self.entries(), name@, 0);
        }
        match self.find(name) {
            Some(k) => Some(&self.forward_index[k]),
            None => None,
        }
    }
}

/// The record store as the server holds it.
pub struct DnsDatabase {
    pub entry_store: DnsEntryStore,
}

impl DnsDatabase {
    /// A database without records.
    pub fn new() -> (d: Self)
        ensures
            d.entry_store.entries() == Seq::<DnsEntryView>::empty(),
            d.entry_store.reverse() == Map::<u128, Seq<Seq<char>>>::empty(),
            d.entry_store.wf(),
    {
        DnsDatabase { entry_store: DnsEntryStore::new() }
    }

    /// Lists the name under the address in the index, and then adds a record
    /// as `DnsEntryStore::add_entry` does. A name that has a record is
    /// refused; the index keeps the name under the address all the same.
    pub fn add_entry_unvalidated(
        &mut self,
        name: &String,
        destination: u128,
        public_key: Vec<u8>,
        signature: Vec<u8>,
        now: i64,
    ) -> (r: Result<(), RNSDNSERRORS>)
        requires
            now <= i64::MAX - RECORD_EXPIRY,
        ensures
            final(self).entry_store.reverse() == index_add(
                old(self).entry_store.reverse(),
                destination,
                name@,
            ),
            match r {
                Ok(_) => {
                    &&& position(old(self).entry_store.entries(), name@, 0).is_none()
                    &&& final(self).entry_store.entries() == old(self).entry_store.entries().push(
                        fresh_entry(name@, destination, public_key@, signature@, now),
                    )
                },
                Err(e) => {
                    &&& e == RNSDNSERRORS::AlreadyExists
                    &&& position(old(self).entry_store.entries(), name@, 0).is_some()
                    &&& final(self).entry_store.entries() == old(self).entry_store.entries()
                },
            },
            old(self).entry_store.wf() ==> final(self).entry_store.wf(),
    {
        broadcast use vstd::std_specs::hash::group_hash_axioms;

        let ghost before = self.entry_store.reverse();
        let mut list = match self.entry_store.reverse_index.remove(&destination) {
            Some(found) => found,
            None => Vec::new(),
        };
        let ghost listed = strings_view(list@);
        if !holds_name(&list, name.as_str()) {
            list.push(name.clone());
            assert(strings_view(list@) =~= listed.push(name@));
        }
        self.entry_store.reverse_index.insert(destination, list);
        proof {
            assert(listed =~= if before.contains_key(destination) {
                before[destination]
            } else {
                Seq::empty()
            });
            assert(self.entry_store.reverse() =~= index_add(before, destination, name@));
        }
        self.entry_store.add_entry(name, destination, public_key, signature, now)
    }

    /// Takes out the record of the name, if there is one, and with it every
    /// address that the record points to from the index.
    pub fn remove_domain(&mut self, domain: &str)
        ensures
            match position(old(self).entry_store.entries(), domain@, 0) {
                Some(k) => {
                    &&& final(self).entry_store.entries() == old(self).entry_store.entries().remove(
                        k,
                    )
                    &&& final(self).entry_store.reverse() == old(
                        self,
                    ).entry_store.reverse().remove_keys(
                        old(self).entry_store.entries()[k].destinations.to_set(),
                    )
                },
                None => {
                    &&& final(self).entry_store.entries() == old(self).entry_store.entries()
                    &&& final(self).entry_store.reverse() == old(self).entry_store.reverse()
                },
            },
            old(self).entry_store.wf() ==> final(self).entry_store.wf(),
    {
        broadcast use vstd::std_specs::hash::group_hash_axioms;

        proof {
            lemma_position(self.entry_store.entries(), domain@, 0);
        }
        match self.entry_store.find(domain) {
            Some(k) => {
                let entry = self.entry_store.forward_index.remove(k);
                assert(self.entry_store.entries() =~= old(self).entry_store.entries().remove(
                    k as int,
                ));
                let ghost start = self.entry_store.reverse();
                let mut j: usize = 0;
                assert(start.remove_keys(entry.destinations@.take(0).to_set()) =~= start);
                while j < entry.destinations.len()
                    invariant
                        j <= entry.destinations@.len(),
                        k < old(self).entry_store.forward_index@.len(),
                        self.entry_store.forward_index@ == old(self).entry_store.forward_index@.remove(
                            k as int,
                        ),
                        self.entry_store.reverse() == start.remove_keys(
                            entry.destinations@.take(j as int).to_set(),
                        ),
                    decreases entry.destinations@.len() - j,
                {
                    let dest = entry.destinations[j];
                    let ghost mid = self.entry_store.reverse();
                    let _ = self.entry_store.reverse_index.remove(&dest);
                    assert(self.entry_store.reverse() =~= mid.remove(dest));
                    proof {
                        let done = entry.destinations@.take(j as int);
                        let next = entry.destinations@.take(j + 1);
                        assert(next =~= done.push(dest));
                        assert(next.to_set() =~= done.to_set().insert(dest)) by {
                            assert forall|d: u128| next.contains(d) <==> done.contains(d) || d
                                == dest by {
                                if done.contains(d) {
                                    let w = choose|w: int| 0 <= w < done.len() && done[w] == d;
                                    assert(next[w] == d);
                                }
                                if d == dest {
                                    assert(next[j as int] == d);
                                }
                            }
                        }
                        assert(mid.remove(dest) =~= start.remove_keys(next.to_set()));
                    }
                    j += 1;
                }
                assert(entry.destinations@.take(j as int) =~= entry.destinations@);
            },
            None => {},
        }
    }

    /// The names listed under an address, if the index holds the address.
    pub fn reverse_lookup(&self, destination: u128) -> (r: Option<&Vec<String>>)
        ensures
            match r {
                Some(names) => self.entry_store.reverse().contains_key(destination)
                    && strings_view(names@) == self.entry_store.reverse()[destination],
                None => !self.entry_store.reverse().contains_key(destination),
            },
    {
        self.entry_store.reverse_lookup(destination)
    }
}

/// What an index lists after a name was added under an address.
pub proof fn lemma_index_add(m: Map<u128, Seq<Seq<char>>>, dest: u128, name: Seq<char>)
    ensures
        forall|d: u128| #[trigger]
            index_add(m, dest, name).contains_key(d) <==> m.contains_key(d) || d == dest,
        forall|d: u128, n: Seq<char>|
            index_add(m, dest, name).contains_key(d) ==> (#[trigger] index_add(
                m,
                dest,
                name,
            )[d].contains(n) <==> (m.contains_key(d) && m[d].contains(n)) || (d == dest && n
                == name)),
{
    let listed = if m.contains_key(dest) {
        m[dest]
    } else {
        Seq::<Seq<char>>::empty()
    };
    assert forall|n: Seq<char>| listed.push(name).contains(n) <==> listed.contains(n) || n
        == name by {
        if listed.contains(n) {
            let k = choose|k: int| 0 <= k < listed.len() && listed[k] == n;
            assert(listed.push(name)[k] == n);
        }
        if n == name {
            assert(listed.push(name)[listed.len() as int] == n);
        }
    }
}

/// What an index lists after a name was added under each of some addresses.
pub proof fn lemma_index_entry(m: Map<u128, Seq<Seq<char>>>, name: Seq<char>, dests: Seq<u128>)
    ensures
        forall|d: u128| #[trigger]
            index_entry(m, name, dests).contains_key(d) <==> m.contains_key(d) || dests.contains(
                d,
            ),
        forall|d: u128, n: Seq<char>|
            index_entry(m, name, dests).contains_key(d) ==> (#[trigger] index_entry(
                m,
                name,
                dests,
            )[d].contains(n) <==> (m.contains_key(d) && m[d].contains(n)) || (dests.contains(d)
                && n == name)),
    decreases dests.len(),
{
    if dests.len() > 0 {
        let front = dests.drop_last();
        lemma_index_entry(m, name, front);
        lemma_index_add(index_entry(m, name, front), dests.last(), name);
        assert forall|d: u128| dests.contains(d) <==> front.contains(d) || d == dests.last() by {
            if front.contains(d) {
                let k = choose|k: int| 0 <= k < front.len() && front[k] == d;
                assert(dests[k] == d);
            }
            if d == dests.last() {
                assert(dests[dests.len() - 1] == d);
            }
            if dests.contains(d) {
                let k = choose|k: int| 0 <= k < dests.len() && dests[k] == d;
                if k < front.len() {
                    assert(front[k] == d);
                }
            }
        }
    }
}

/// A record of `entries` has the name and points to the address.
pub open spec fn points_to(entries: Seq<DnsEntryView>, name: Seq<char>, dest: u128) -> bool {
    exists|i: int|
        0 <= i < entries.len() && (#[trigger] entries[i]).name == name
            && entries[i].destinations.contains(dest)
}

/// Some record of `entries` points to the address.
pub open spec fn is_target(entries: Seq<DnsEntryView>, dest: u128) -> bool {
    exists|i: int| 0 <= i < entries.len() && (#[trigger] entries[i]).destinations.contains(dest)
}

/// The index of a sequence of records holds exactly the addresses that some
/// record points to, and lists under each of them exactly the names of the
/// records that point to it.
pub proof fn lemma_index_all(entries: Seq<DnsEntryView>)
    ensures
        forall|d: u128| #[trigger] index_all(entries).contains_key(d) <==> is_target(entries, d),
        forall|d: u128, n: Seq<char>|
            index_all(entries).contains_key(d) ==> (#[trigger] index_all(entries)[d].contains(n)
                <==> points_to(entries, n, d)),
    decreases entries.len(),
{
    if entries.len() > 0 {
        let front = entries.drop_last();
        let last = entries.last();
        lemma_index_all(front);
        lemma_index_entry(index_all(front), last.name, last.destinations);
        assert forall|d: u128| is_target(entries, d) <==> is_target(front, d)
            || last.destinations.contains(d) by {
            if is_target(front, d) {
                let k = choose|k: int|
                    0 <= k < front.len() && (#[trigger] front[k]).destinations.contains(d);
                assert(entries[k].destinations.contains(d));
            }
            if last.destinations.contains(d) {
                assert(entries[entries.len() - 1].destinations.contains(d));
            }
            if is_target(entries, d) {
                let k = choose|k: int|
                    0 <= k < entries.len() && (#[trigger] entries[k]).destinations.contains(d);
                if k < front.len() {
                    assert(front[k].destinations.contains(d));
                }
            }
        }
        assert forall|d: u128, n: Seq<char>|
            points_to(entries, n, d) <==> points_to(front, n, d) || (last.name == n
                && last.destinations.contains(d)) by {
            if points_to(front, n, d) {
                let k = choose|k: int|
                    0 <= k < front.len() && (#[trigger] front[k]).name == n
                        && front[k].destinations.contains(d);
                assert(entries[k].name == n);
            }
            if last.name == n && last.destinations.contains(d) {
                assert(entries[entries.len() - 1].name == n);
            }
            if points_to(entries, n, d) {
                let k = choose|k: int|
                    0 <= k < entries.len() && (#[trigger] entries[k]).name == n
                        && entries[k].destinations.contains(d);
                if k < front.len() {
                    assert(front[k].name == n);
                }
            }
        }
        assert forall|d: u128, n: Seq<char>| index_all(entries).contains_key(d) implies (
        #[trigger] index_all(entries)[d].contains(n) <==> points_to(entries, n, d)) by {
            if index_all(front).contains_key(d) {
                assert(index_all(front)[d].contains(n) <==> points_to(front, n, d));
            } else {
                assert(!is_target(front, d));
                if points_to(front, n, d) {
                    let k = choose|k: int|
                        0 <= k < front.len() && (#[trigger] front[k]).name == n
                            && front[k].destinations.contains(d);
                    assert(front[k].destinations.contains(d));
                }
            }
        }
    }
}

/// Where no record from `from` on has the name, none is found.
pub proof fn lemma_position_none(entries: Seq<DnsEntryView>, name: Seq<char>, from: int)
    requires
        0 <= from,
        forall|i: int| from <= i < entries.len() ==> entries[i].name != name,
    ensures
        position(entries, name, from).is_none(),
    decreases entries.len() - from,
{
    if from < entries.len() {
        lemma_position_none(entries, name, from + 1);
    }
}

} // verus!
