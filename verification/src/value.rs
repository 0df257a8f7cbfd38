//! Parameter values and named parameter sets.
//!
//! A `ParamValue` is the closed union of data a template parameter can hold.  The
//! engine never computes with numbers: a floating-point parameter is carried
//! as its decimal text, and the boundary that obtains such a value converts
//! it once.  `ValueModel` is the mathematical counterpart used throughout the
//! contracts; it also models values read from the template descriptor, which
//! may additionally be tables or datetimes.

use vstd::prelude::*;

verus! {

/// Mathematical model of a value: the shape contracts speak about.
///
/// `Table` and `Datetime` never arise from a [`ParamValue`]; they model data read
/// from the template descriptor.
pub enum ValueModel {
    String(Seq<char>),
    Integer(int),
    /// The decimal text of a floating-point number.
    Float(Seq<char>),
    Boolean(bool),
    Array(Seq<ValueModel>),
    Table(Map<Seq<char>, ValueModel>),
    Datetime,
}

/// A parameter value: the closed union of data a template parameter can hold.
#[derive(Debug, PartialEq, Eq)]
pub enum ParamValue {
    String(String),
    Integer(i64),
    /// A floating-point number, carried as its decimal text.
    Float(String),
    Boolean(bool),
    Array(Vec<ParamValue>),
}

impl View for ParamValue {
    type V = ValueModel;

    open spec fn view(&self) -> ValueModel
        decreases self,
    {
        match self {
            ParamValue::String(s) => ValueModel::String(s@),
            ParamValue::Integer(i) => ValueModel::Integer(*i as int),
            ParamValue::Float(s) => ValueModel::Float(s@),
            ParamValue::Boolean(b) => ValueModel::Boolean(*b),
            ParamValue::Array(xs) => ValueModel::Array(models_of(xs@)),
        }
    }
}

/// The models of a sequence of values, element by element.
pub open spec fn models_of(s: Seq<ParamValue>) -> Seq<ValueModel>
    decreases s,
{
    if s.len() == 0 {
        Seq::empty()
    } else {
        models_of(s.subrange(0, s.len() - 1)).push(s[s.len() - 1].view())
    }
}

/// `models_of` maps the sequence element by element.
pub proof fn lemma_models_of(s: Seq<ParamValue>)
    ensures
        models_of(s).len() == s.len(),
        forall|i: int| 0 <= i < s.len() ==> models_of(s)[i] == s[i]@,
    decreases s,
{
    if s.len() > 0 {
        let sub = s.subrange(0, s.len() - 1);
        lemma_models_of(sub);
        assert(models_of(s) == models_of(sub).push(s[s.len() - 1]@));
        assert forall|i: int| 0 <= i < s.len() implies models_of(s)[i] == s[i]@ by {
            if i < s.len() - 1 {
                assert(models_of(s)[i] == models_of(sub)[i]);
                assert(sub[i] == s[i]);
            }
        }
    }
}

impl ParamValue {
    /// True when this is a `String` value.
    pub fn is_text(&self) -> (r: bool)
        ensures
            r == (self@ is String),
    {
        match self {
            ParamValue::String(_) => true,
            _ => false,
        }
    }

    /// The text of a `String` value.
    pub fn as_text(&self) -> (r: Option<&String>)
        ensures
            match r {
                Some(s) => self@ is String && s@ == self@->String_0,
                None => !(self@ is String),
            },
    {
        match self {
            ParamValue::String(s) => Some(s),
            _ => None,
        }
    }
}

impl ParamValue {
    /// A copy of the value, model for model.
    #[verifier::loop_isolation(false)]
    pub fn duplicate(&self) -> (r: ParamValue)
        ensures
            r@ == self@,
        decreases self,
    {
        match self {
            ParamValue::String(s) => ParamValue::String(s.clone()),
            ParamValue::Integer(i) => ParamValue::Integer(*i),
            ParamValue::Float(s) => ParamValue::Float(s.clone()),
            ParamValue::Boolean(b) => ParamValue::Boolean(*b),
            ParamValue::Array(xs) => {
                let n = xs.len();
                let mut out: Vec<ParamValue> = Vec::new();
                let mut i: usize = 0;
                while i < n
                    invariant
                        i <= n,
                        out@.len() == i,
                        forall|j: int| 0 <= j < i ==> #[trigger] out@[j]@ == xs@[j]@,
                    decreases n - i,
                {
                    proof {
                        assert(decreases_to!(*self => (*self)->Array_0));
                        assert(decreases_to!((*self)->Array_0 => xs@));
                        assert(decreases_to!(xs@ => xs@[i as int]));
                    }
                    let c = xs[i].duplicate();
                    out.push(c);
                    i += 1;
                }
                proof {
                    lemma_models_of(out@);
                    lemma_models_of(xs@);
                    assert(models_of(out@) =~= models_of(xs@));
                }
                ParamValue::Array(out)
            },
        }
    }
}

/// No key occurs twice in the association list.
pub open spec fn unique_keys(s: Seq<(Seq<char>, ValueModel)>) -> bool {
    forall|i: int, j: int| 0 <= i < j < s.len() ==> s[i].0 != s[j].0
}

/// The map described by an association list, later entries winning.
pub open spec fn assoc_map(s: Seq<(Seq<char>, ValueModel)>) -> Map<Seq<char>, ValueModel>
    decreases s.len(),
{
    if s.len() == 0 {
        Map::empty()
    } else {
        assoc_map(s.drop_last()).insert(s.last().0, s.last().1)
    }
}

/// An entry's key is in the map; with unique keys it maps to that entry's value.
proof fn lemma_assoc_lookup(s: Seq<(Seq<char>, ValueModel)>, i: int)
    requires
        0 <= i < s.len(),
        forall|j: int| i < j < s.len() ==> s[j].0 != s[i].0,
    ensures
        assoc_map(s).contains_key(s[i].0),
        assoc_map(s)[s[i].0] == s[i].1,
    decreases s.len(),
{
    if i < s.len() - 1 {
        assert(s.drop_last()[i] == s[i]);
        assert(forall|j: int| i < j < s.len() - 1 ==> s.drop_last()[j] == s[j]);
        lemma_assoc_lookup(s.drop_last(), i);
    }
}

/// A key no entry carries is not in the map.
proof fn lemma_assoc_absent(s: Seq<(Seq<char>, ValueModel)>, k: Seq<char>)
    requires
        forall|i: int| 0 <= i < s.len() ==> s[i].0 != k,
    ensures
        !assoc_map(s).contains_key(k),
    decreases s.len(),
{
    if s.len() > 0 {
        assert(forall|i: int| 0 <= i < s.len() - 1 ==> s.drop_last()[i] == s[i]);
        lemma_assoc_absent(s.drop_last(), k);
    }
}

/// A named set of parameter values: a mapping from names to values.
///
/// The entries are held in insertion order with unique keys; the view is the
/// mapping itself.
#[derive(Debug, PartialEq, Eq)]
pub struct ParamSet {
    entries: Vec<(String, ParamValue)>,
}

impl View for ParamSet {
    type V = Map<Seq<char>, ValueModel>;

    open spec fn view(&self) -> Map<Seq<char>, ValueModel> {
        assoc_map(self.entry_models())
    }
}

impl ParamSet {
    /// The entries' models, in insertion order.
    pub closed spec fn entry_models(&self) -> Seq<(Seq<char>, ValueModel)> {
        self.entries@.map_values(|e: (String, ParamValue)| (e.0@, e.1@))
    }

    /// Well-formed: no key occurs twice.
    pub open spec fn wf(&self) -> bool {
        unique_keys(self.entry_models())
    }

    /// An empty parameter set.
    pub fn new() -> (r: ParamSet)
        ensures
            r.wf(),
            r@ == Map::<Seq<char>, ValueModel>::empty(),
            r.entry_models() == Seq::<(Seq<char>, ValueModel)>::empty(),
    {
        let r = ParamSet { entries: Vec::new() };
        proof {
            assert(r.entry_models() =~= Seq::<(Seq<char>, ValueModel)>::empty());
        }
        r
    }

    /// How many parameters the set holds.
    pub fn len(&self) -> (n: usize)
        ensures
            n == self.entry_models().len(),
    {
        self.entries.len()
    }

    /// The name of the `i`-th parameter, in insertion order.
    pub fn key_at(&self, i: usize) -> (k: &String)
        requires
            i < self.entry_models().len(),
        ensures
            k@ == self.entry_models()[i as int].0,
    {
        &self.entries[i].0
    }

    /// The value of the `i`-th parameter, in insertion order.
    pub fn value_at(&self, i: usize) -> (v: &ParamValue)
        requires
            i < self.entry_models().len(),
        ensures
            v@ == self.entry_models()[i as int].1,
    {
        &self.entries[i].1
    }

    /// Looks a parameter up by name.
    pub fn get(&self, key: &str) -> (r: Option<&ParamValue>)
        requires
            self.wf(),
        ensures
            match r {
                Some(v) => self@.contains_key(key@) && v@ == self@[key@],
                None => !self@.contains_key(key@),
            },
    {
        let n = self.entries.len();
        let mut i: usize = 0;
        while i < n
            invariant
                self.wf(),
                n == self.entry_models().len(),
                i <= n,
                forall|j: int| 0 <= j < i ==> self.entry_models()[j].0 != key@,
            decreases n - i,
        {
            if crate::text::str_eq(self.entries[i].0.as_str(), key) {
                proof {
                    lemma_assoc_lookup(self.entry_models(), i as int);
                }
                return Some(&self.entries[i].1);
            }
            i += 1;
        }
        proof {
            lemma_assoc_absent(self.entry_models(), key@);
        }
        None
    }

    /// Whether the set holds a parameter of this name.
    pub fn contains_key(&self, key: &str) -> (r: bool)
        requires
            self.wf(),
        ensures
            r == self@.contains_key(key@),
    {
        match self.get(key) {
            Some(_) => true,
            None => false,
        }
    }

    /// Binds `key` to `value`, replacing any earlier binding in place.
    pub fn insert(&mut self, key: String, value: ParamValue)
        requires
            old(self).wf(),
        ensures
            final(self).wf(),
            final(self)@ == old(self)@.insert(key@, value@),
    {
        let n = self.entries.len();
        let mut i: usize = 0;
        while i < n
            invariant
                self == old(self),
                old(self).wf(),
                n == self.entry_models().len(),
                i <= n,
                forall|j: int| 0 <= j < i ==> self.entry_models()[j].0 != key@,
            decreases n - i,
        {
            if crate::text::str_eq(self.entries[i].0.as_str(), key.as_str()) {
                self.entries.set(i, (key, value));
                proof {
                    let pre = old(self).entry_models();
                    let post = self.entry_models();
                    assert(post.len() == pre.len());
                    assert(post[i as int].0 == pre[i as int].0);
                    assert(forall|j: int| 0 <= j < pre.len() && j != i ==> post[j] == pre[j]);
                    lemma_set_entry(pre, post, i as int);
                }
                return ;
            }
            i += 1;
        }
        self.entries.push((key, value));
        proof {
            assert(self.entry_models() =~= old(self).entry_models().push((key@, value@)));
            assert(self.entry_models().drop_last() =~= old(self).entry_models());
            lemma_assoc_absent(old(self).entry_models(), key@);
            lemma_insert_absent_map(old(self).entry_models(), key@, value@);
        }
    }
}

impl ParamSet {
    /// A copy of the set, entry for entry.
    #[verifier::loop_isolation(false)]
    pub fn duplicate(&self) -> (r: ParamSet)
        ensures
            r.entry_models() == self.entry_models(),
            r@ == self@,
    {
        let n = self.entries.len();
        let mut entries: Vec<(String, ParamValue)> = Vec::new();
        let mut i: usize = 0;
        while i < n
            invariant
                i <= n,
                entries@.len() == i,
                forall|j: int|
                    0 <= j < i ==> (#[trigger] entries@[j].0@, entries@[j].1@) == (
                        self.entries@[j].0@,
                        self.entries@[j].1@,
                    ),
            decreases n - i,
        {
            let k = self.entries[i].0.clone();
            let v = self.entries[i].1.duplicate();
            entries.push((k, v));
            i += 1;
        }
        let r = ParamSet { entries };
        proof {
            assert(r.entry_models() =~= self.entry_models());
        }
        r
    }
}

/// Replacing the entry at `i` by one with the same key leaves the map as an
/// insert of that key.
proof fn lemma_set_entry(
    pre: Seq<(Seq<char>, ValueModel)>,
    post: Seq<(Seq<char>, ValueModel)>,
    i: int,
)
    requires
        0 <= i < pre.len(),
        post.len() == pre.len(),
        post[i].0 == pre[i].0,
        forall|j: int| 0 <= j < pre.len() && j != i ==> post[j] == pre[j],
        unique_keys(pre),
    ensures
        unique_keys(post),
        assoc_map(post) == assoc_map(pre).insert(pre[i].0, post[i].1),
    decreases pre.len(),
{
    assert(forall|p: int| 0 <= p < post.len() ==> post[p].0 == pre[p].0);
    if i == pre.len() - 1 {
        assert(post.drop_last() =~= pre.drop_last());
    } else {
        assert(forall|j: int|
            0 <= j < pre.len() - 1 && j != i ==> post.drop_last()[j] == pre.drop_last()[j]);
        lemma_set_entry(pre.drop_last(), post.drop_last(), i);
        assert(post.last() == pre.last());
        assert(assoc_map(post) == assoc_map(pre.drop_last()).insert(pre[i].0, post[i].1).insert(
            pre.last().0,
            pre.last().1,
        ));
        assert(pre.last().0 != pre[i].0);
        assert(assoc_map(pre.drop_last()).insert(pre[i].0, post[i].1).insert(
            pre.last().0,
            pre.last().1,
        ) =~= assoc_map(pre.drop_last()).insert(pre.last().0, pre.last().1).insert(
            pre[i].0,
            post[i].1,
        ));
    }
}

/// Inserting a fresh key appends a binding.
proof fn lemma_insert_absent_map(s: Seq<(Seq<char>, ValueModel)>, k: Seq<char>, v: ValueModel)
    ensures
        assoc_map(s.push((k, v))) == assoc_map(s).insert(k, v),
{
    assert(s.push((k, v)).drop_last() =~= s);
}

} // verus!
