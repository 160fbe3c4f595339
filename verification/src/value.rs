//! Dynamically typed values and the parameter bag that carries them.

use vstd::prelude::*;
use vstd::string::StringExecFns;

verus! {

/// A value as a caller without static types hands it over.
///
/// `Other` stands for everything that no field type accepts: fractions,
/// integers beyond 64 bits, lists, nested mappings, arbitrary objects.
#[derive(Debug)]
pub enum DynValue {
    Null,
    Bool(bool),
    Int(i64),
    Str(String),
    Other,
}

/// The mathematical value of a [`DynValue`].
pub ghost enum DynView {
    Null,
    Bool(bool),
    Int(int),
    Str(Seq<char>),
    Other,
}

impl View for DynValue {
    type V = DynView;

    open spec fn view(&self) -> DynView {
        match self {
            DynValue::Null => DynView::Null,
            DynValue::Bool(b) => DynView::Bool(*b),
            DynValue::Int(n) => DynView::Int(*n as int),
            DynValue::Str(s) => DynView::Str(s@),
            DynValue::Other => DynView::Other,
        }
    }
}

impl Clone for DynValue {
    fn clone(&self) -> (r: DynValue)
        ensures
            r@ == self@,
    {
        match self {
            DynValue::Null => DynValue::Null,
            DynValue::Bool(b) => DynValue::Bool(*b),
            DynValue::Int(n) => DynValue::Int(*n),
            DynValue::Str(s) => DynValue::Str(s.clone()),
            DynValue::Other => DynValue::Other,
        }
    }
}

/// The mapping that a sequence of bindings denotes: a later binding of a key
/// replaces an earlier one.
pub open spec fn bindings_map(s: Seq<(Seq<char>, DynView)>) -> Map<Seq<char>, DynView>
    decreases s.len(),
{
    if s.len() == 0 {
        Map::empty()
    } else {
        bindings_map(s.drop_last()).insert(s.last().0, s.last().1)
    }
}

/// The mathematical value of a list of bindings.
pub open spec fn bindings_view(s: Seq<(String, DynValue)>) -> Seq<(Seq<char>, DynView)> {
    Seq::new(s.len(), |i: int| (s[i].0@, s[i].1@))
}

/// An untyped mapping from names to values, as supplied by a caller.
///
/// Nothing is promised about which names are present or what their values
/// hold.
#[derive(Debug)]
pub struct RawParameters {
    bindings: Vec<(String, DynValue)>,
}

impl View for RawParameters {
    type V = Map<Seq<char>, DynView>;

    closed spec fn view(&self) -> Map<Seq<char>, DynView> {
        bindings_map(bindings_view(self.bindings@))
    }
}

proof fn lemma_bindings_lookup(s: Seq<(Seq<char>, DynView)>, key: Seq<char>, i: int)
    requires
        0 <= i < s.len(),
        s[i].0 == key,
        forall|j: int| i < j < s.len() ==> s[j].0 != key,
    ensures
        bindings_map(s).contains_key(key),
        bindings_map(s)[key] == s[i].1,
    decreases s.len(),
{
    if i < s.len() - 1 {
        lemma_bindings_lookup(s.drop_last(), key, i);
    }
}

proof fn lemma_bindings_absent(s: Seq<(Seq<char>, DynView)>, key: Seq<char>)
    requires
        forall|j: int| 0 <= j < s.len() ==> s[j].0 != key,
    ensures
        !bindings_map(s).contains_key(key),
    decreases s.len(),
{
    if s.len() > 0 {
        lemma_bindings_absent(s.drop_last(), key);
    }
}

impl RawParameters {
    /// The empty mapping.
    pub fn new() -> (r: RawParameters)
        ensures
            r@ == Map::<Seq<char>, DynView>::empty(),
    {
        RawParameters { bindings: Vec::new() }
    }

    /// Binds `key` to `value`, replacing what `key` was bound to before.
    pub fn insert(&mut self, key: &str, value: DynValue)
        ensures
            final(self)@ == old(self)@.insert(key@, value@),
    {
        let ghost before = bindings_view(self.bindings@);
        self.bindings.push((String::from_str(key), value));
        assert(bindings_view(self.bindings@).drop_last() =~= before);
    }

    /// Binds `key` to `value`, replacing what `key` was bound to before.
    pub fn insert_owned(&mut self, key: String, value: DynValue)
        ensures
            final(self)@ == old(self)@.insert(key@, value@),
    {
        let ghost before = bindings_view(self.bindings@);
        self.bindings.push((key, value));
        assert(bindings_view(self.bindings@).drop_last() =~= before);
    }

    /// The value bound to `key`, if there is one.
    pub fn get(&self, key: &str) -> (r: Option<&DynValue>)
        ensures
            match r {
                Some(v) => self@.contains_key(key@) && self@[key@] == v@,
                None => !self@.contains_key(key@),
            },
    {
        let wanted = String::from_str(key);
        let mut i: usize = self.bindings.len();
        while i > 0
            invariant
                i <= self.bindings.len(),
                wanted@ == key@,
                forall|j: int| i <= j < self.bindings.len() ==> self.bindings@[j].0@ != key@,
            decreases i,
        {
            i = i - 1;
            if self.bindings[i].0 == wanted {
                proof {
                    lemma_bindings_lookup(bindings_view(self.bindings@), key@, i as int);
                }
                return Some(&self.bindings[i].1);
            }
        }
        proof {
            lemma_bindings_absent(bindings_view(self.bindings@), key@);
        }
        None
    }

    /// Whether `key` is bound.
    pub fn contains_key(&self, key: &str) -> (r: bool)
        ensures
            r == self@.contains_key(key@),
    {
        self.get(key).is_some()
    }
}

} // verus!
