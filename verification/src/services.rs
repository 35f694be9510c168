//! Service-provider descriptors, merged across archives.
//!
//! A descriptor names the classes that provide one service, one per line;
//! `#` starts a comment. Descriptors of the same name from several archives
//! are merged into one list in which no provider occurs twice.

use vstd::prelude::*;
use vstd::string::*;
use crate::text::{
    chars_of, copy_range, find_char, find_char_in, split, split_chars, string_of, string_views,
    trim, trim_chars, views,
};

verus! {

/// One merged descriptor: the service's file name and its providers.
pub struct ServiceFile {
    pub name: String,
    pub providers: Vec<String>,
}

/// The merged descriptors, in the order in which each name first occurred.
pub struct ServiceTable {
    pub files: Vec<ServiceFile>,
}

/// A descriptor as plain text: its name and its providers.
pub type ServiceModel = (Seq<char>, Seq<Seq<char>>);

/// The provider that one descriptor line names: the text before any `#`,
/// without surrounding white space. Empty where the line names none.
pub open spec fn provider_of_line(line: Seq<char>) -> Seq<char> {
    trim(line.take(find_char(line, '#') as int))
}

/// The providers that the lines name, in order; lines that name none are
/// passed over.
pub open spec fn providers_in(lines: Seq<Seq<char>>) -> Seq<Seq<char>>
    decreases lines.len(),
{
    if lines.len() == 0 {
        Seq::empty()
    } else {
        let rest = providers_in(lines.drop_last());
        let p = provider_of_line(lines.last());
        if p.len() == 0 {
            rest
        } else {
            rest.push(p)
        }
    }
}

/// The providers that a descriptor's text names.
pub open spec fn provider_lines(data: Seq<char>) -> Seq<Seq<char>> {
    providers_in(split(data, '\n'))
}

/// Index of the descriptor called `name`, or the table's length.
pub open spec fn service_index(table: Seq<ServiceModel>, name: Seq<char>) -> nat
    decreases table.len(),
{
    if table.len() == 0 || table[0].0 == name {
        0
    } else {
        1 + service_index(table.drop_first(), name)
    }
}

/// `providers` with `p` added at the end unless it is already there.
pub open spec fn with_provider(providers: Seq<Seq<char>>, p: Seq<char>) -> Seq<Seq<char>> {
    if providers.contains(p) {
        providers
    } else {
        providers.push(p)
    }
}

/// The table after `p` was declared under `name`.
pub open spec fn add_provider(table: Seq<ServiceModel>, name: Seq<char>, p: Seq<char>) -> Seq<
    ServiceModel,
> {
    let i = service_index(table, name) as int;
    if i < table.len() {
        table.update(i, (name, with_provider(table[i].1, p)))
    } else {
        table.push((name, seq![p]))
    }
}

/// The table after each of `ps` was declared under `name`, in order.
pub open spec fn add_providers(
    table: Seq<ServiceModel>,
    name: Seq<char>,
    ps: Seq<Seq<char>>,
) -> Seq<ServiceModel>
    decreases ps.len(),
{
    if ps.len() == 0 {
        table
    } else {
        add_provider(add_providers(table, name, ps.drop_last()), name, ps.last())
    }
}

/// Whether no element occurs twice.
pub open spec fn distinct(s: Seq<Seq<char>>) -> bool {
    forall|i: int, j: int| 0 <= i < j < s.len() ==> s[i] != s[j]
}

/// A table is well formed when its names are distinct and every descriptor
/// has at least one provider and none twice.
pub open spec fn table_wf(table: Seq<ServiceModel>) -> bool {
    &&& forall|i: int, j: int| 0 <= i < j < table.len() ==> table[i].0 != table[j].0
    &&& forall|i: int|
        0 <= i < table.len() ==> (#[trigger] table[i]).1.len() > 0 && distinct(table[i].1)
}

/// The text of a merged descriptor: every provider followed by a line feed.
pub open spec fn descriptor_text(providers: Seq<Seq<char>>) -> Seq<char>
    decreases providers.len(),
{
    if providers.len() == 0 {
        Seq::empty()
    } else {
        descriptor_text(providers.drop_last()) + providers.last() + seq!['\n']
    }
}

/// `service_index` is the least index with the name, or the length.
pub proof fn lemma_service_index(table: Seq<ServiceModel>, name: Seq<char>)
    ensures
        service_index(table, name) <= table.len(),
        forall|j: int| 0 <= j < service_index(table, name) ==> table[j].0 != name,
        service_index(table, name) < table.len() ==> table[service_index(table, name) as int].0
            == name,
    decreases table.len(),
{
    if table.len() == 0 || table[0].0 == name {
    } else {
        let t = table.drop_first();
        lemma_service_index(t, name);
        assert forall|j: int| 0 <= j < service_index(table, name) implies table[j].0 != name by {
            if j > 0 {
                assert(table[j] == t[j - 1]);
            }
        }
        if service_index(t, name) < t.len() {
            assert(t[service_index(t, name) as int] == table[service_index(table, name) as int]);
        }
    }
}

/// Any index with the defining property of `service_index` is it.
pub proof fn lemma_service_index_unique(table: Seq<ServiceModel>, name: Seq<char>, k: int)
    requires
        0 <= k <= table.len(),
        forall|j: int| 0 <= j < k ==> table[j].0 != name,
        k < table.len() ==> table[k].0 == name,
    ensures
        service_index(table, name) == k,
    decreases table.len(),
{
    if table.len() == 0 {
    } else if table[0].0 == name {
        if k > 0 {
            assert(table[0].0 != name);
        }
    } else {
        let t = table.drop_first();
        assert forall|j: int| 0 <= j < k - 1 implies t[j].0 != name by {
            assert(t[j] == table[j + 1]);
        }
        if k < table.len() {
            assert(t[k - 1] == table[k]);
        }
        lemma_service_index_unique(t, name, k - 1);
    }
}

/// Declaring a provider keeps a table well formed.
pub proof fn lemma_add_provider(table: Seq<ServiceModel>, name: Seq<char>, p: Seq<char>)
    requires
        table_wf(table),
    ensures
        table_wf(add_provider(table, name, p)),
{
    let i = service_index(table, name) as int;
    let next = add_provider(table, name, p);
    lemma_service_index(table, name);
    if i < table.len() {
        let ps = table[i].1;
        let qs = with_provider(ps, p);
        if !ps.contains(p) {
            assert forall|a: int, b: int| 0 <= a < b < qs.len() implies qs[a] != qs[b] by {
                if b == ps.len() {
                    assert(ps[a] == qs[a]);
                    assert(ps.contains(qs[a]));
                }
            }
        }
        assert forall|a: int, b: int| 0 <= a < b < next.len() implies next[a].0 != next[b].0 by {
            assert(next[a].0 == table[a].0);
            assert(next[b].0 == table[b].0);
        }
        assert forall|a: int| 0 <= a < next.len() implies (#[trigger] next[a]).1.len() > 0
            && distinct(next[a].1) by {
            if a != i {
                assert(next[a] == table[a]);
            }
        }
    } else {
        assert forall|a: int, b: int| 0 <= a < b < next.len() implies next[a].0 != next[b].0 by {
            assert(next[a] == table[a]);
        }
        assert forall|a: int| 0 <= a < next.len() implies (#[trigger] next[a]).1.len() > 0
            && distinct(next[a].1) by {
            if a < table.len() {
                assert(next[a] == table[a]);
            }
        }
    }
}

/// Declaring a provider adds no descriptor but, at most, the one of the
/// name it is declared under.
pub proof fn lemma_add_provider_names(table: Seq<ServiceModel>, name: Seq<char>, p: Seq<char>)
    ensures
        forall|i: int|
            0 <= i < add_provider(table, name, p).len() ==> {
                let n = (#[trigger] add_provider(table, name, p)[i]).0;
                n == name || exists|j: int| 0 <= j < table.len() && (#[trigger] table[j]).0 == n
            },
{
    let next = add_provider(table, name, p);
    let k = service_index(table, name) as int;
    lemma_service_index(table, name);
    assert forall|i: int| 0 <= i < next.len() implies {
        let n = (#[trigger] next[i]).0;
        n == name || exists|j: int| 0 <= j < table.len() && (#[trigger] table[j]).0 == n
    } by {
        if i < table.len() && i != k {
            assert(next[i] == table[i]);
        }
    }
}

/// The providers listed under `name`, as a set: empty where the table has
/// no descriptor of that name.
pub open spec fn providers_of(table: Seq<ServiceModel>, name: Seq<char>) -> Set<Seq<char>> {
    let i = service_index(table, name) as int;
    if i < table.len() {
        table[i].1.to_set()
    } else {
        Set::empty()
    }
}

/// Declaring a provider adds it to the set of its name and changes no
/// other set.
pub proof fn lemma_add_provider_sets(
    table: Seq<ServiceModel>,
    name: Seq<char>,
    p: Seq<char>,
    other: Seq<char>,
)
    ensures
        providers_of(add_provider(table, name, p), name) == providers_of(table, name).insert(p),
        other != name ==> providers_of(add_provider(table, name, p), other) == providers_of(
            table,
            other,
        ),
{
    let next = add_provider(table, name, p);
    let i = service_index(table, name) as int;
    lemma_service_index(table, name);
    assert forall|j: int| 0 <= j < i implies next[j].0 != name by {
        assert(next[j] == table[j]);
    }
    lemma_service_index_unique(next, name, i);
    if i < table.len() {
        let ps = table[i].1;
        assert(with_provider(ps, p).to_set() =~= ps.to_set().insert(p)) by {
            if !ps.contains(p) {
                assert forall|x: Seq<char>| ps.push(p).contains(x) <==> ps.contains(x) || x
                    == p by {
                    if ps.contains(x) {
                        let k = choose|k: int| 0 <= k < ps.len() && ps[k] == x;
                        assert(ps.push(p)[k] == x);
                    }
                    if x == p {
                        assert(ps.push(p)[ps.len() as int] == p);
                    }
                }
            }
        }
    } else {
        assert(seq![p].to_set() =~= Set::<Seq<char>>::empty().insert(p)) by {
            assert(seq![p][0] == p);
        }
    }
    if other != name {
        let k = service_index(table, other) as int;
        lemma_service_index(table, other);
        assert forall|j: int| 0 <= j < k implies next[j].0 != other by {
            if j != i {
                assert(next[j] == table[j]);
            }
        }
        if k < table.len() {
            assert(next[k] == table[k]);
        }
        let found = if k < table.len() || i < table.len() {
            k
        } else {
            k + 1
        };
        lemma_service_index_unique(next, other, found);
    }
}

/// Declaring providers adds them to the set of their name and changes no
/// other set: in which order they were declared, and how often, does not
/// show.
pub proof fn lemma_add_providers_sets(
    table: Seq<ServiceModel>,
    name: Seq<char>,
    ps: Seq<Seq<char>>,
    other: Seq<char>,
)
    ensures
        providers_of(add_providers(table, name, ps), name) == providers_of(table, name).union(
            ps.to_set(),
        ),
        other != name ==> providers_of(add_providers(table, name, ps), other) == providers_of(
            table,
            other,
        ),
    decreases ps.len(),
{
    if ps.len() == 0 {
        assert(ps.to_set() =~= Set::<Seq<char>>::empty());
        assert(providers_of(table, name).union(ps.to_set()) =~= providers_of(table, name));
    } else {
        let before = add_providers(table, name, ps.drop_last());
        lemma_add_providers_sets(table, name, ps.drop_last(), other);
        lemma_add_provider_sets(before, name, ps.last(), other);
        assert(ps.to_set() =~= ps.drop_last().to_set().insert(ps.last())) by {
            assert forall|x: Seq<char>| ps.contains(x) <==> ps.drop_last().contains(x) || x
                == ps.last() by {
                if ps.contains(x) {
                    let k = choose|k: int| 0 <= k < ps.len() && ps[k] == x;
                    if k < ps.len() - 1 {
                        assert(ps.drop_last()[k] == x);
                    }
                }
                if ps.drop_last().contains(x) {
                    let k = choose|k: int| 0 <= k < ps.drop_last().len() && ps.drop_last()[k] == x;
                    assert(ps[k] == x);
                }
                if x == ps.last() {
                    assert(ps[ps.len() - 1] == x);
                }
            }
        }
        assert(providers_of(table, name).union(ps.drop_last().to_set()).insert(ps.last())
            =~= providers_of(table, name).union(ps.to_set()));
    }
}

/// Declaring a provider that is listed already changes nothing.
pub proof fn lemma_add_present(table: Seq<ServiceModel>, name: Seq<char>, p: Seq<char>)
    requires
        providers_of(table, name).contains(p),
    ensures
        add_provider(table, name, p) == table,
{
    let i = service_index(table, name) as int;
    lemma_service_index(table, name);
    assert(table[i].1.contains(p));
    assert(table.update(i, (name, table[i].1)) =~= table);
}

/// Declaring a provider a second time changes nothing.
pub proof fn lemma_add_provider_twice(table: Seq<ServiceModel>, name: Seq<char>, p: Seq<char>)
    ensures
        add_provider(add_provider(table, name, p), name, p) == add_provider(table, name, p),
{
    lemma_add_provider_sets(table, name, p, name);
    lemma_add_present(add_provider(table, name, p), name, p);
}

/// Declaring providers that are all listed already changes nothing.
pub proof fn lemma_add_all_present(table: Seq<ServiceModel>, name: Seq<char>, ps: Seq<Seq<char>>)
    requires
        forall|k: int| 0 <= k < ps.len() ==> providers_of(table, name).contains(#[trigger] ps[k]),
    ensures
        add_providers(table, name, ps) == table,
    decreases ps.len(),
{
    if ps.len() > 0 {
        assert forall|k: int| 0 <= k < ps.drop_last().len() implies providers_of(
            table,
            name,
        ).contains(#[trigger] ps.drop_last()[k]) by {
            assert(ps.drop_last()[k] == ps[k]);
        }
        lemma_add_all_present(table, name, ps.drop_last());
        assert(providers_of(table, name).contains(ps[ps.len() - 1]));
        lemma_add_present(table, name, ps.last());
    }
}

/// Merging the same providers a second time changes nothing: what two
/// archives both declare is listed once.
pub proof fn lemma_add_providers_twice(
    table: Seq<ServiceModel>,
    name: Seq<char>,
    ps: Seq<Seq<char>>,
)
    ensures
        add_providers(add_providers(table, name, ps), name, ps) == add_providers(table, name, ps),
{
    let once = add_providers(table, name, ps);
    lemma_add_providers_sets(table, name, ps, name);
    assert forall|k: int| 0 <= k < ps.len() implies providers_of(once, name).contains(
        #[trigger] ps[k],
    ) by {
        assert(ps.contains(ps[k]));
        assert(ps.to_set().contains(ps[k]));
    }
    lemma_add_all_present(once, name, ps);
}

/// The providers in the order in which each was first declared, each once.
pub open spec fn deduplicated(ps: Seq<Seq<char>>) -> Seq<Seq<char>>
    decreases ps.len(),
{
    if ps.len() == 0 {
        Seq::empty()
    } else {
        with_provider(deduplicated(ps.drop_last()), ps.last())
    }
}

/// Declaring providers in an empty table makes one descriptor, which lists
/// each of them once.
pub proof fn lemma_add_to_empty(name: Seq<char>, ps: Seq<Seq<char>>)
    requires
        ps.len() > 0,
    ensures
        add_providers(Seq::empty(), name, ps) == seq![(name, deduplicated(ps))],
        distinct(deduplicated(ps)),
        deduplicated(ps).to_set() == ps.to_set(),
    decreases ps.len(),
{
    let start = Seq::<ServiceModel>::empty();
    let table = add_providers(start, name, ps);
    if ps.len() == 1 {
        assert(ps.drop_last() =~= Seq::<Seq<char>>::empty());
        assert(add_providers(start, name, ps.drop_last()) == start);
        assert(deduplicated(ps.drop_last()) =~= Seq::<Seq<char>>::empty());
        assert(deduplicated(ps) =~= seq![ps.last()]);
        assert(table =~= seq![(name, deduplicated(ps))]);
    } else {
        lemma_add_to_empty(name, ps.drop_last());
        let before = seq![(name, deduplicated(ps.drop_last()))];
        assert(before[0].0 == name);
        assert(service_index(before, name) == 0);
        assert(table =~= seq![(name, deduplicated(ps))]);
    }
    lemma_add_providers(start, name, ps);
    lemma_add_providers_sets(start, name, ps, name);
    assert(table[0] == (name, deduplicated(ps)));
    assert(service_index(table, name) == 0);
    assert(providers_of(start, name).union(ps.to_set()) =~= ps.to_set());
}

/// Declaring providers keeps a table well formed and adds no descriptor
/// but, at most, the one of the name they are declared under.
pub proof fn lemma_add_providers(table: Seq<ServiceModel>, name: Seq<char>, ps: Seq<Seq<char>>)
    requires
        table_wf(table),
    ensures
        table_wf(add_providers(table, name, ps)),
        forall|i: int|
            0 <= i < add_providers(table, name, ps).len() ==> {
                let n = (#[trigger] add_providers(table, name, ps)[i]).0;
                n == name || exists|j: int| 0 <= j < table.len() && (#[trigger] table[j]).0 == n
            },
    decreases ps.len(),
{
    if ps.len() > 0 {
        let before = add_providers(table, name, ps.drop_last());
        let next = add_providers(table, name, ps);
        lemma_add_providers(table, name, ps.drop_last());
        lemma_add_provider(before, name, ps.last());
        lemma_add_provider_names(before, name, ps.last());
        assert forall|i: int| 0 <= i < next.len() implies {
            let n = (#[trigger] next[i]).0;
            n == name || exists|j: int| 0 <= j < table.len() && (#[trigger] table[j]).0 == n
        } by {
            let n = next[i].0;
            if n != name {
                let j = choose|j: int| 0 <= j < before.len() && (#[trigger] before[j]).0 == n;
                assert(before[j].0 == n);
            }
        }
    }
}

impl ServiceFile {
    /// The descriptor as plain text.
    pub open spec fn view(&self) -> ServiceModel {
        (self.name@, string_views(self.providers@))
    }
}

impl ServiceTable {
    /// The descriptors as plain text, in order.
    pub open spec fn view(&self) -> Seq<ServiceModel> {
        Seq::new(self.files@.len(), |i: int| self.files@[i]@)
    }

    /// An empty table.
    pub fn new() -> (table: Self)
        ensures
            table@ == Seq::<ServiceModel>::empty(),
            table_wf(table@),
    {
        let table = ServiceTable { files: Vec::new() };
        proof {
            assert(table@ =~= Seq::<ServiceModel>::empty());
        }
        table
    }

    /// Index of the descriptor called `name`, or the number of descriptors.
    pub fn index_of(&self, name: &String) -> (k: usize)
        ensures
            k == service_index(self@, name@),
            k <= self.files.len(),
    {
        let mut i: usize = 0;
        while i < self.files.len()
            invariant
                i <= self.files.len(),
                forall|j: int| 0 <= j < i ==> self@[j].0 != name@,
            decreases self.files.len() - i,
        {
            if self.files[i].name == *name {
                proof {
                    lemma_service_index_unique(self@, name@, i as int);
                }
                return i;
            }
            i += 1;
        }
        proof {
            lemma_service_index_unique(self@, name@, i as int);
        }
        i
    }

    /// Declares `provider` under the descriptor `name`. A well-formed table
    /// stays so.
    pub fn declare(&mut self, name: &String, provider: String)
        ensures
            final(self)@ == add_provider(old(self)@, name@, provider@),
            table_wf(old(self)@) ==> table_wf(final(self)@),
    {
        proof {
            if table_wf(self@) {
                lemma_add_provider(self@, name@, provider@);
            }
        }
        let i = self.index_of(name);
        let ghost before = self@;
        if i < self.files.len() {
            let mut file = self.files.remove(i);
            let ghost old_providers = string_views(file.providers@);
            if !has_text(&file.providers, &provider) {
                file.providers.push(provider);
                proof {
                    assert(string_views(file.providers@) =~= old_providers.push(provider@));
                }
            }
            proof {
                lemma_service_index(before, name@);
            }
            self.files.insert(i, file);
            proof {
                assert(self@ =~= add_provider(before, name@, provider@));
            }
        } else {
            let mut providers: Vec<String> = Vec::new();
            providers.push(provider);
            let file = ServiceFile { name: name.clone(), providers };
            self.files.push(file);
            proof {
                assert(string_views(file.providers@) =~= seq![provider@]);
                assert(self@ =~= add_provider(before, name@, provider@));
            }
        }
    }
}

/// Whether `list` holds the text of `item`.
pub fn has_text(list: &Vec<String>, item: &String) -> (r: bool)
    ensures
        r == string_views(list@).contains(item@),
{
    let mut i: usize = 0;
    while i < list.len()
        invariant
            i <= list.len(),
            forall|j: int| 0 <= j < i ==> string_views(list@)[j] != item@,
        decreases list.len() - i,
    {
        if list[i] == *item {
            proof {
                assert(string_views(list@)[i as int] == item@);
            }
            return true;
        }
        i += 1;
    }
    false
}

/// Merges the providers that the descriptor text `data` names into the
/// descriptor `name` of `services`.
pub fn parse_service_definition(name: &str, data: &str, services: &mut ServiceTable)
    ensures
        final(services)@ == add_providers(old(services)@, name@, provider_lines(data@)),
        table_wf(old(services)@) ==> table_wf(final(services)@),
{
    let key = String::from_str(name);
    let text = chars_of(data);
    let lines = split_chars(text.as_slice(), '\n');
    let mut i: usize = 0;
    while i < lines.len()
        invariant
            i <= lines.len(),
            key@ == name@,
            views(lines@) == split(data@, '\n'),
            services@ == add_providers(
                old(services)@,
                name@,
                providers_in(views(lines@).take(i as int)),
            ),
        decreases lines.len() - i,
    {
        let line = &lines[i];
        let cut = find_char_in(line.as_slice(), '#');
        let head = copy_range(line.as_slice(), 0, cut);
        let trimmed = trim_chars(head.as_slice());
        proof {
            assert(views(lines@).take(i + 1).drop_last() =~= views(lines@).take(i as int));
            assert(views(lines@).take(i + 1).last() == line@);
            assert(line@.subrange(0, cut as int) =~= line@.take(cut as int));
            assert(trimmed@ == provider_of_line(line@));
        }
        if trimmed.len() > 0 {
            services.declare(&key, string_of(trimmed.as_slice()));
            proof {
                let done = providers_in(views(lines@).take(i as int));
                let next = providers_in(views(lines@).take(i + 1));
                assert(next == done.push(trimmed@));
                assert(next.drop_last() =~= done);
                assert(next.last() == trimmed@);
            }
        }
        i += 1;
    }
    proof {
        assert(views(lines@).take(lines.len() as int) =~= views(lines@));
        if table_wf(old(services)@) {
            lemma_add_providers(old(services)@, name@, provider_lines(data@));
        }
    }
}

} // verus!
