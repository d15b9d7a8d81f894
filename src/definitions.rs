use crate::library::{ATTRIBUTE_COUNT, Attribute, Command};
use multimap::MultiMap;
use std::collections::HashMap;
use vstd::prelude::*;

verus! {

broadcast use vstd::std_specs::hash::group_hash_axioms;

#[verifier::external_type_specification]
#[verifier::external_body]
#[verifier::reject_recursive_types(K)]
#[verifier::reject_recursive_types(V)]
#[verifier::reject_recursive_types(S)]
pub struct ExMultiMap<K, V, S>(MultiMap<K, V, S>);

/// An index from attribute positions to opcodes.
pub type AttrIndex = MultiMap<u8, u16>;

/// The vector of values that a multimap holds under each key.
pub uninterp spec fn multimap_lists(m: AttrIndex) -> Map<u8, Seq<u16>>;

/// Relies on `MultiMap::new`: a map with no keys.
#[verifier::external_body]
fn multimap_new() -> (r: AttrIndex)
    ensures
        multimap_lists(r).dom() == Set::<u8>::empty(),
{
    MultiMap::new()
}

/// Relies on `MultiMap::insert`: the value is pushed onto the key's vector,
/// which is started when the key is new.
#[verifier::external_body]
fn multimap_insert(m: &mut AttrIndex, k: u8, v: u16)
    ensures
        multimap_lists(*final(m)) == multimap_lists(*old(m)).insert(
            k,
            if multimap_lists(*old(m)).contains_key(k) {
                multimap_lists(*old(m))[k].push(v)
            } else {
                seq![v]
            },
        ),
{
    m.insert(k, v)
}

/// Relies on `MultiMap::get_vec`: the key's vector, if the key is present;
/// the vector is copied out.
#[verifier::external_body]
fn multimap_get_vec(m: &AttrIndex, k: u8) -> (r: Option<Vec<u16>>)
    ensures
        match r {
            Some(v) => multimap_lists(*m).contains_key(k) && v@ == multimap_lists(*m)[k],
            None => !multimap_lists(*m).contains_key(k),
        },
{
    m.get_vec(&k).cloned()
}

/// The opcode dictionary: commands keyed by opcode, the opcodes in the order
/// in which they were first added, and an index from attributes to opcodes.
pub struct DefinitionMap {
    ops: HashMap<u16, Command>,
    order: Vec<u16>,
    attrs: AttrIndex,
}

/// Whether `lists` holds, under the position of each attribute, the opcodes
/// among `keys` with that attribute, and no entry for an attribute that none
/// has.
pub open spec fn indexes(lists: Map<u8, Seq<u16>>, ops: Map<u16, Command>, keys: Seq<u16>) -> bool {
    forall|a: Attribute|
        {
            &&& #[trigger] lists.contains_key(a.spec_ordinal()) == (with_attr(ops, keys, a).len() > 0)
            &&& lists.contains_key(a.spec_ordinal()) ==> lists[a.spec_ordinal()] == with_attr(ops, keys, a)
        }
}

/// The dictionary after adding `c` under `op`: a later command replaces an
/// earlier one with the same opcode, which keeps its place in the order.
pub open spec fn add_entry(d: (Map<u16, Command>, Seq<u16>), op: u16, c: Command) -> (
    Map<u16, Command>,
    Seq<u16>,
) {
    (d.0.insert(op, c), if d.1.contains(op) { d.1 } else { d.1.push(op) })
}

/// The dictionary built from `pairs`, in order, starting from `d`.
pub open spec fn add_pairs(d: (Map<u16, Command>, Seq<u16>), pairs: Seq<(u16, Command)>) -> (
    Map<u16, Command>,
    Seq<u16>,
)
    decreases pairs.len(),
{
    if pairs.len() == 0 {
        d
    } else {
        add_pairs(add_entry(d, pairs[0].0, pairs[0].1), pairs.drop_first())
    }
}

/// The opcodes among `keys` whose command in `ops` has attribute `a`.
pub open spec fn with_attr(ops: Map<u16, Command>, keys: Seq<u16>, a: Attribute) -> Seq<u16> {
    keys.filter(|k: u16| ops[k].attrs.spec_has(a))
}

/// The opcodes among `keys` whose command in `ops` is called `name`.
pub open spec fn with_name(ops: Map<u16, Command>, keys: Seq<u16>, name: Seq<char>) -> Seq<u16> {
    keys.filter(|k: u16| ops[k].name@ == name)
}

impl View for DefinitionMap {
    type V = Map<u16, Command>;

    closed spec fn view(&self) -> Map<u16, Command> {
        self.ops@
    }
}

impl DefinitionMap {
    /// The opcodes of the dictionary in the order in which they were added.
    pub closed spec fn keys(&self) -> Seq<u16> {
        self.order@
    }

    /// The keys are the opcodes of the map, each once.
    closed spec fn keys_wf(&self) -> bool {
        &&& self.order@.no_duplicates()
        &&& forall|k: u16| self.ops@.contains_key(k) <==> self.order@.contains(k)
    }

    /// The keys are the opcodes of the map, each once, and the attribute
    /// index agrees with the commands.
    pub closed spec fn wf(&self) -> bool {
        &&& self.keys_wf()
        &&& indexes(multimap_lists(self.attrs), self.ops@, self.order@)
    }

    /// A dictionary with no commands.
    pub fn empty() -> (r: Self)
        ensures
            r.wf(),
            r@ == Map::<u16, Command>::empty(),
            r.keys() == Seq::<u16>::empty(),
    {
        DefinitionMap { ops: HashMap::new(), order: Vec::new(), attrs: multimap_new() }
    }

    /// Adds `c` under `op`, replacing a command with that opcode; the
    /// attribute index is left to be rebuilt.
    fn insert(&mut self, op: u16, c: Command)
        requires
            old(self).keys_wf(),
        ensures
            final(self).keys_wf(),
            (final(self)@, final(self).keys()) == add_entry((old(self)@, old(self).keys()), op, c),
    {
        let ghost old_order = self.order@;
        let replaced = self.ops.insert(op, c);
        if replaced.is_none() {
            self.order.push(op);
            proof {
                assert forall|k: u16| self.ops@.contains_key(k) <==> self.order@.contains(k) by {
                    if k == op {
                        assert(self.order@[self.order@.len() - 1] == op);
                    } else {
                        if self.order@.contains(k) {
                            let i = choose|i: int| 0 <= i < self.order@.len() && self.order@[i] == k;
                            assert(old_order[i] == k);
                        }
                        if old_order.contains(k) {
                            let i = choose|i: int| 0 <= i < old_order.len() && old_order[i] == k;
                            assert(self.order@[i] == k);
                        }
                    }
                }
                assert forall|i: int, j: int|
                    0 <= i < self.order@.len() && 0 <= j < self.order@.len() && i != j
                    implies self.order@[i] != self.order@[j] by {
                    if i == self.order@.len() - 1 || j == self.order@.len() - 1 {
                        assert(!old_order.contains(op));
                    }
                }
            }
        }
    }

    /// Rebuilds the attribute index from the commands.
    fn index_attributes(&mut self)
        requires
            old(self).keys_wf(),
        ensures
            final(self).wf(),
            final(self)@ == old(self)@,
            final(self).keys() == old(self).keys(),
    {
        let mut index = multimap_new();
        let mut k: usize = 0;
        while k < self.order.len()
            invariant
                self.keys_wf(),
                k <= self.order@.len(),
                indexes(multimap_lists(index), self.ops@, self.order@.subrange(0, k as int)),
            decreases self.order@.len() - k,
        {
            let op = self.order[k];
            let ghost pre = self.order@.subrange(0, k as int);
            let ghost post = self.order@.subrange(0, k + 1);
            proof {
                assert(post == pre.push(op));
                assert(self.order@.contains(op));
            }
            let c = self.ops.get(&op).unwrap();
            let mut j: u8 = 0;
            while j < ATTRIBUTE_COUNT
                invariant
                    j <= ATTRIBUTE_COUNT,
                    post == pre.push(op),
                    self.ops@.contains_key(op),
                    *c == self.ops@[op],
                    forall|a: Attribute|
                        {
                            let keys = if a.spec_ordinal() < j { post } else { pre };
                            &&& #[trigger] multimap_lists(index).contains_key(a.spec_ordinal()) == (
                            with_attr(self.ops@, keys, a).len() > 0)
                            &&& multimap_lists(index).contains_key(a.spec_ordinal())
                                ==> multimap_lists(index)[a.spec_ordinal()] == with_attr(
                                self.ops@,
                                keys,
                                a,
                            )
                        },
                decreases ATTRIBUTE_COUNT - j,
            {
                let a = Attribute::from_ordinal(j);
                proof {
                    pre.lemma_filter_push(op, |k: u16| self.ops@[k].attrs.spec_has(a));
                }
                if c.attrs.has(a) {
                    multimap_insert(&mut index, j, op);
                }
                proof {
                    assert forall|b: Attribute| b.spec_ordinal() == j implies b == a by {}
                }
                j = j + 1;
            }
            k = k + 1;
        }
        proof {
            assert(self.order@.subrange(0, self.order@.len() as int) == self.order@);
        }
        self.attrs = index;
    }

    /// A dictionary of the given pairs, added in order.
    pub fn from_pairs(v: Vec<(u16, Command)>) -> (r: Self)
        ensures
            r.wf(),
            (r@, r.keys()) == add_pairs((Map::empty(), Seq::empty()), v@),
    {
        let ghost all = v@;
        let mut v = v;
        let mut map = DefinitionMap::empty();
        while v.len() > 0
            invariant
                map.keys_wf(),
                add_pairs((map@, map.keys()), v@) == add_pairs(
                    (Map::empty(), Seq::empty()),
                    all,
                ),
            decreases v.len(),
        {
            let (op, c) = v.remove(0);
            map.insert(op, c);
        }
        map.index_attributes();
        map
    }

    /// The command of opcode `op`, if there is one.
    pub fn find_by_op(&self, op: &u16) -> (r: Option<&Command>)
        ensures
            r matches Some(c) ==> self@.contains_key(*op) && self@[*op] == *c,
            r is None ==> !self@.contains_key(*op),
    {
        self.ops.get(op)
    }

    /// The opcodes whose command has attribute `a`, in dictionary order.
    pub fn find_all_by_attr(&self, a: Attribute) -> (r: Vec<u16>)
        requires
            self.wf(),
        ensures
            r@ == with_attr(self@, self.keys(), a),
    {
        let ghost lists = multimap_lists(self.attrs);
        assert(lists.contains_key(a.spec_ordinal()) == (with_attr(self@, self.keys(), a).len() > 0));
        match multimap_get_vec(&self.attrs, a.ordinal()) {
            Some(v) => v,
            None => {
                assert(with_attr(self@, self.keys(), a) =~= Seq::<u16>::empty());
                Vec::new()
            },
        }
    }

    /// The first opcode, in dictionary order, whose command is called `name`.
    pub fn find_by_name(&self, name: &String) -> (r: Option<u16>)
        requires
            self.wf(),
        ensures
            r == (if with_name(self@, self.keys(), name@).len() > 0 {
                Some(with_name(self@, self.keys(), name@)[0])
            } else {
                None
            }),
    {
        let mut i: usize = 0;
        while i < self.order.len()
            invariant
                self.wf(),
                i <= self.order@.len(),
                with_name(self@, self.order@.subrange(0, i as int), name@).len() == 0,
            decreases self.order@.len() - i,
        {
            let op = self.order[i];
            proof {
                assert(self.order@.subrange(0, i + 1) == self.order@.subrange(0, i as int).push(op));
                self.order@.subrange(0, i as int).lemma_filter_push(
                    op,
                    |k: u16| self.ops@[k].name@ == name@,
                );
                assert(self.order@.contains(op));
                self.order@.subrange(i + 1, self.order@.len() as int).lemma_filter_prepend(
                    op,
                    |k: u16| self.ops@[k].name@ == name@,
                );
                assert(self.order@ == self.order@.subrange(0, i as int) + self.order@.subrange(
                    i as int,
                    self.order@.len() as int,
                ));
                Seq::filter_distributes_over_add(
                    self.order@.subrange(0, i as int),
                    self.order@.subrange(i as int, self.order@.len() as int),
                    |k: u16| self.ops@[k].name@ == name@,
                );
                assert(self.order@.subrange(i as int, self.order@.len() as int)
                    == seq![op] + self.order@.subrange(i + 1, self.order@.len() as int));
            }
            let c = self.ops.get(&op).unwrap();
            if c.name == *name {
                proof {
                    assert(with_name(self@, self.keys(), name@) == seq![op] + self.order@.subrange(
                        i + 1,
                        self.order@.len() as int,
                    ).filter(|k: u16| self.ops@[k].name@ == name@));
                }
                return Some(op);
            }
            i = i + 1;
        }
        proof {
            assert(self.order@.subrange(0, self.order@.len() as int) == self.order@);
        }
        None
    }

    /// The first opcode, in dictionary order, whose command has attribute `a`.
    pub fn find_by_attr(&self, a: Attribute) -> (r: Option<u16>)
        requires
            self.wf(),
        ensures
            r == (if with_attr(self@, self.keys(), a).len() > 0 {
                Some(with_attr(self@, self.keys(), a)[0])
            } else {
                None
            }),
    {
        let all = self.find_all_by_attr(a);
        if all.len() > 0 {
            Some(all[0])
        } else {
            None
        }
    }
}

} // verus!
