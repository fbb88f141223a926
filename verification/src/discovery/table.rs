//! Services by name.
use crate::discovery::service_info::ServiceInfo;
use vstd::prelude::*;

verus! {

/// Services by name. No two entries have the same name.
pub struct ServiceTable {
    entries: Vec<(String, ServiceInfo)>,
}

/// The names of entries.
spec fn names(entries: Seq<(String, ServiceInfo)>) -> Seq<Seq<char>> {
    entries.map_values(|entry: (String, ServiceInfo)| entry.0@)
}

/// The place of a name.
spec fn place_of(entries: Seq<(String, ServiceInfo)>, name: Seq<char>) -> int {
    choose|i: int| 0 <= i < entries.len() && #[trigger] names(entries)[i] == name
}

/// The services by name.
spec fn map_of(entries: Seq<(String, ServiceInfo)>) -> Map<Seq<char>, ServiceInfo> {
    Map::new(
        |name: Seq<char>| names(entries).contains(name),
        |name: Seq<char>| entries[place_of(entries, name)].1,
    )
}

/// Whether these are the services of a table, each once, in some order.
pub open spec fn are_services(
    services: Seq<ServiceInfo>,
    table: Map<Seq<char>, ServiceInfo>,
) -> bool {
    exists|order: Seq<Seq<char>>|
        #[trigger] order.no_duplicates() && order.to_set() == table.dom() && services
            == order.map_values(|name: Seq<char>| table[name])
}

impl View for ServiceTable {
    type V = Map<Seq<char>, ServiceInfo>;

    closed spec fn view(&self) -> Map<Seq<char>, ServiceInfo> {
        map_of(self.entries@)
    }
}

/// The service at a place is the one with the name there.
proof fn lemma_entry(entries: Seq<(String, ServiceInfo)>, i: int)
    requires
        names(entries).no_duplicates(),
        0 <= i < entries.len(),
    ensures
        map_of(entries).contains_key(entries[i].0@),
        map_of(entries)[entries[i].0@] == entries[i].1,
{
    let name = entries[i].0@;
    assert(names(entries)[i] == name);
    let j = place_of(entries, name);
    assert(names(entries)[j] == name);
}

/// One more name is one more entry of the map.
proof fn lemma_push(entries: Seq<(String, ServiceInfo)>, entry: (String, ServiceInfo))
    requires
        names(entries).no_duplicates(),
        !names(entries).contains(entry.0@),
    ensures
        names(entries.push(entry)).no_duplicates(),
        map_of(entries.push(entry)) == map_of(entries).insert(entry.0@, entry.1),
{
    let after = entries.push(entry);
    assert(names(after) =~= names(entries).push(entry.0@));
    assert(names(after).no_duplicates());
    assert forall|name: Seq<char>| map_of(after).contains_key(name) <==> map_of(entries).insert(
        entry.0@,
        entry.1,
    ).contains_key(name) by {
        if names(entries).contains(name) {
            let i = choose|i: int| 0 <= i < entries.len() && names(entries)[i] == name;
            assert(names(after)[i] == name);
        }
        assert(names(after)[entries.len() as int] == entry.0@);
        if names(after).contains(name) && name != entry.0@ {
            let i = choose|i: int| 0 <= i < after.len() && names(after)[i] == name;
            assert(names(entries)[i] == name);
        }
    }
    assert forall|name: Seq<char>| #[trigger] map_of(after).contains_key(name) implies map_of(after)[name]
        == map_of(entries).insert(entry.0@, entry.1)[name] by {
        let i = choose|i: int| 0 <= i < after.len() && names(after)[i] == name;
        lemma_entry(after, i);
        if i < entries.len() {
            lemma_entry(entries, i);
            assert(names(entries)[i] == name);
        }
    }
    assert(map_of(after) =~= map_of(entries).insert(entry.0@, entry.1));
}

/// Another service under a name is another value of the map.
proof fn lemma_update(
    entries: Seq<(String, ServiceInfo)>,
    i: int,
    entry: (String, ServiceInfo),
)
    requires
        names(entries).no_duplicates(),
        0 <= i < entries.len(),
        entry.0@ == entries[i].0@,
    ensures
        names(entries.update(i, entry)).no_duplicates(),
        map_of(entries.update(i, entry)) == map_of(entries).insert(entry.0@, entry.1),
{
    let after = entries.update(i, entry);
    assert(names(after) =~= names(entries));
    lemma_entry(entries, i);
    assert forall|name: Seq<char>| #[trigger] map_of(after).contains_key(name) implies map_of(after)[name]
        == map_of(entries).insert(entry.0@, entry.1)[name] by {
        let j = choose|j: int| 0 <= j < after.len() && names(after)[j] == name;
        lemma_entry(after, j);
        lemma_entry(entries, j);
        if name == entry.0@ {
            assert(names(entries)[i] == name);
        }
    }
    assert(map_of(after) =~= map_of(entries).insert(entry.0@, entry.1));
}

/// An entry less is a name less.
proof fn lemma_remove(entries: Seq<(String, ServiceInfo)>, i: int)
    requires
        names(entries).no_duplicates(),
        0 <= i < entries.len(),
    ensures
        names(entries.remove(i)).no_duplicates(),
        map_of(entries.remove(i)) == map_of(entries).remove(entries[i].0@),
{
    let after = entries.remove(i);
    let gone = entries[i].0@;
    assert(names(after) =~= names(entries).remove(i));
    assert(names(after).no_duplicates());
    assert(names(entries)[i] == gone);
    assert forall|name: Seq<char>| map_of(after).contains_key(name) <==> map_of(entries).remove(
        gone,
    ).contains_key(name) by {
        if names(after).contains(name) {
            let j = choose|j: int| 0 <= j < after.len() && names(after)[j] == name;
            let k = if j < i {
                j
            } else {
                j + 1
            };
            assert(names(entries)[k] == name);
        }
        if names(entries).contains(name) && name != gone {
            let k = choose|k: int| 0 <= k < entries.len() && names(entries)[k] == name;
            let j = if k < i {
                k
            } else {
                k - 1
            };
            assert(names(after)[j] == name);
        }
    }
    assert forall|name: Seq<char>| #[trigger] map_of(after).contains_key(name) implies map_of(after)[name]
        == map_of(entries)[name] by {
        let j = choose|j: int| 0 <= j < after.len() && names(after)[j] == name;
        lemma_entry(after, j);
        lemma_entry(
            entries,
            if j < i {
                j
            } else {
                j + 1
            },
        );
    }
    assert(map_of(after) =~= map_of(entries).remove(gone));
}

impl ServiceTable {
    #[verifier::type_invariant]
    spec fn is_valid(self) -> bool {
        names(self.entries@).no_duplicates()
    }

    /// An empty table.
    pub fn new() -> (t: Self)
        ensures
            t@ == Map::<Seq<char>, ServiceInfo>::empty(),
    {
        let entries: Vec<(String, ServiceInfo)> = Vec::new();
        proof {
            assert(map_of(entries@) =~= Map::empty());
        }
        ServiceTable { entries }
    }

    /// The place of a name, if it is there.
    fn find(&self, name: &str) -> (r: Option<usize>)
        ensures
            match r {
                Some(i) => i < self.entries@.len() && self.entries@[i as int].0@ == name@,
                None => !names(self.entries@).contains(name@),
            },
    {
        let wanted = name.to_owned();
        let mut i: usize = 0;
        while i < self.entries.len()
            invariant
                i <= self.entries@.len(),
                wanted@ == name@,
                forall|k: int| 0 <= k < i ==> #[trigger] names(self.entries@)[k] != name@,
            decreases self.entries.len() - i,
        {
            if self.entries[i].0 == wanted {
                return Some(i);
            }
            i = i + 1;
        }
        None
    }

    /// Puts a service under a name, in place of the one that was there.
    pub fn insert(&mut self, name: String, info: ServiceInfo)
        ensures
            final(self)@ == old(self)@.insert(name@, info),
    {
        proof {
            use_type_invariant(&*self);
        }
        let place = self.find(name.as_str());
        let mut entries: Vec<(String, ServiceInfo)> = Vec::new();
        core::mem::swap(&mut entries, &mut self.entries);
        match place {
            Some(i) => {
                proof {
                    lemma_update(entries@, i as int, (name, info));
                }
                entries.set(i, (name, info));
            },
            None => {
                proof {
                    lemma_push(entries@, (name, info));
                }
                entries.push((name, info));
            },
        }
        self.entries = entries;
    }

    /// Takes out the service under a name, if there is one.
    pub fn remove(&mut self, name: &str)
        ensures
            final(self)@ == old(self)@.remove(name@),
    {
        proof {
            use_type_invariant(&*self);
        }
        match self.find(name) {
            Some(i) => {
                let mut entries: Vec<(String, ServiceInfo)> = Vec::new();
                core::mem::swap(&mut entries, &mut self.entries);
                proof {
                    lemma_remove(entries@, i as int);
                }
                let _ = entries.remove(i);
                self.entries = entries;
            },
            None => {
                proof {
                    assert(self@.remove(name@) =~= self@);
                }
            },
        }
    }

    /// Takes out every service.
    pub fn clear(&mut self)
        ensures
            final(self)@ == Map::<Seq<char>, ServiceInfo>::empty(),
    {
        *self = ServiceTable::new();
    }

    /// The number of services.
    pub fn len(&self) -> (n: usize)
        ensures
            n == self@.len(),
            self@.dom().finite(),
    {
        proof {
            use_type_invariant(self);
            names(self.entries@).unique_seq_to_set();
            assert(self@.dom() =~= names(self.entries@).to_set());
        }
        self.entries.len()
    }

    /// Every service, once.
    pub fn services(&self) -> (r: Vec<ServiceInfo>)
        ensures
            are_services(r@, self@),
    {
        proof {
            use_type_invariant(self);
        }
        let mut services: Vec<ServiceInfo> = Vec::new();
        let mut i: usize = 0;
        while i < self.entries.len()
            invariant
                i <= self.entries@.len(),
                services@.len() == i,
                forall|k: int| 0 <= k < i ==> #[trigger] services@[k] == self.entries@[k].1,
            decreases self.entries.len() - i,
        {
            services.push(self.entries[i].1.clone());
            i = i + 1;
        }
        proof {
            let order = names(self.entries@);
            let table = self@;
            assert(order.to_set() =~= table.dom());
            assert forall|k: int| 0 <= k < services@.len() implies #[trigger] services@[k]
                == table[order[k]] by {
                lemma_entry(self.entries@, k);
            }
            assert(services@ =~= order.map_values(|name: Seq<char>| table[name]));
        }
        services
    }
}

} // verus!
