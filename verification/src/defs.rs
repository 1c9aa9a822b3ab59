//! Word definitions and the dictionary. A definition is a closed tagged
//! variant: a native builtin (named by an opcode, with its declared arity
//! labels) or a user quotation bound by `def`. The dictionary is an
//! append-only journal of bindings read from the end, so the last definition
//! of a name always wins, exactly as redefinition in a hash map would.

use vstd::prelude::*;
use crate::errors::labels_view;
use crate::values::{Quote, ValSpec};

verus! {

/// The native builtins of the core: control flow, dictionary manipulation,
/// and the equality, ordering and boolean words of the value model.
#[derive(Clone, Copy, Debug)]
pub enum BuiltinOp {
    Opt,
    Do,
    Doin,
    Def,
    DefQuery,
    Undef,
    Equal,
    NotEqual,
    Less,
    LessEq,
    Greater,
    GreaterEq,
    Not,
}

/// What invoking a definition does: run a native action, or run a stored
/// quotation verbatim.
#[derive(Debug)]
pub enum RailAction {
    Builtin(BuiltinOp),
    Quotation(Quote),
}

/// A dictionary entry: a word's name, its declared consumes/produces arity
/// labels (used only for the stack-underflow check), and its action.
#[derive(Debug)]
pub struct RailDef {
    pub name: String,
    pub consumes: Vec<&'static str>,
    pub produces: Vec<&'static str>,
    pub action: RailAction,
}

/// The model of an action.
pub enum ActionSpec {
    Builtin(BuiltinOp),
    Quotation(Seq<ValSpec>),
}

/// The model of a definition.
pub struct DefSpec {
    pub name: Seq<char>,
    pub consumes: Seq<Seq<char>>,
    pub produces: Seq<Seq<char>>,
    pub action: ActionSpec,
}

impl View for RailAction {
    type V = ActionSpec;

    open spec fn view(&self) -> ActionSpec {
        match self {
            RailAction::Builtin(op) => ActionSpec::Builtin(*op),
            RailAction::Quotation(q) => ActionSpec::Quotation(q@),
        }
    }
}

impl View for RailDef {
    type V = DefSpec;

    open spec fn view(&self) -> DefSpec {
        DefSpec {
            name: self.name@,
            consumes: labels_view(self.consumes@),
            produces: labels_view(self.produces@),
            action: self.action@,
        }
    }
}

/// An element-for-element copy of a list of arity labels.
pub(crate) fn copy_labels(v: &Vec<&'static str>) -> (r: Vec<&'static str>)
    ensures
        r@ == v@,
{
    let mut r: Vec<&'static str> = Vec::new();
    let mut i: usize = 0;
    let n = v.len();
    while i < n
        invariant
            i <= n,
            n == v@.len(),
            r@ == v@.take(i as int),
        decreases n - i,
    {
        r.push(v[i]);
        proof {
            assert(r@ =~= v@.take(i + 1));
        }
        i = i + 1;
    }
    proof {
        assert(v@.take(n as int) =~= v@);
    }
    r
}

impl RailDef {
    /// A native definition from a name, its arity labels, and its opcode.
    pub fn on_state(
        name: &str,
        consumes: Vec<&'static str>,
        produces: Vec<&'static str>,
        op: BuiltinOp,
    ) -> (r: RailDef)
        ensures
            r@ == (DefSpec {
                name: name@,
                consumes: labels_view(consumes@),
                produces: labels_view(produces@),
                action: ActionSpec::Builtin(op),
            }),
    {
        RailDef { name: name.to_owned(), consumes, produces, action: RailAction::Builtin(op) }
    }

    /// A user definition wrapping a quotation, as `def` builds it. Its
    /// arities are unspecified and left empty.
    pub fn from_quote(name: &str, quote: Quote) -> (r: RailDef)
        ensures
            r@ == (DefSpec {
                name: name@,
                consumes: Seq::empty(),
                produces: Seq::empty(),
                action: ActionSpec::Quotation(quote@),
            }),
    {
        proof {
            assert(labels_view(Seq::empty()) =~= Seq::<Seq<char>>::empty());
        }
        RailDef {
            name: name.to_owned(),
            consumes: Vec::new(),
            produces: Vec::new(),
            action: RailAction::Quotation(quote),
        }
    }

    /// A deep copy with the same model.
    pub fn duplicate(&self) -> (r: RailDef)
        ensures
            r@ == self@,
    {
        let action = match &self.action {
            RailAction::Builtin(op) => RailAction::Builtin(*op),
            RailAction::Quotation(q) => RailAction::Quotation(q.duplicate()),
        };
        RailDef {
            name: self.name.clone(),
            consumes: copy_labels(&self.consumes),
            produces: copy_labels(&self.produces),
            action,
        }
    }
}

/// A mapping from word name to definition; the model reads the entries from
/// newest to oldest.
pub open spec fn map_of(s: Seq<(String, RailDef)>) -> Map<Seq<char>, DefSpec>
    decreases s,
{
    if s.len() == 0 {
        Map::empty()
    } else {
        map_of(s.drop_last()).insert(s.last().0@, s.last().1@)
    }
}

/// The word dictionary.
#[derive(Debug)]
pub struct Dictionary {
    entries: Vec<(String, RailDef)>,
}

impl View for Dictionary {
    type V = Map<Seq<char>, DefSpec>;

    closed spec fn view(&self) -> Map<Seq<char>, DefSpec> {
        map_of(self.entries@)
    }
}

proof fn lemma_map_of_no_key(s: Seq<(String, RailDef)>, k: Seq<char>)
    requires
        forall|j: int| 0 <= j < s.len() ==> (#[trigger] s[j].0)@ != k,
    ensures
        !map_of(s).contains_key(k),
    decreases s,
{
    if s.len() > 0 {
        assert(s.last() == s[s.len() - 1]);
        lemma_map_of_no_key(s.drop_last(), k);
    }
}

proof fn lemma_map_of_last_match(s: Seq<(String, RailDef)>, j: int, k: Seq<char>)
    requires
        0 <= j < s.len(),
        s[j].0@ == k,
        forall|t: int| j < t < s.len() ==> (#[trigger] s[t].0)@ != k,
    ensures
        map_of(s).contains_key(k),
        map_of(s)[k] == s[j].1@,
    decreases s,
{
    assert(s.last() == s[s.len() - 1]);
    if j == s.len() - 1 {
    } else {
        let ds = s.drop_last();
        assert(ds[j] == s[j]);
        assert forall|t: int| j < t < ds.len() implies (#[trigger] ds[t].0)@ != k by {
            assert(ds[t] == s[t]);
        }
        lemma_map_of_last_match(ds, j, k);
    }
}

/// Removing every entry bound to a key, keeping the rest in order.
pub open spec fn seq_remove_key(s: Seq<(String, RailDef)>, k: Seq<char>) -> Seq<(String, RailDef)>
    decreases s,
{
    if s.len() == 0 {
        s
    } else {
        let r = seq_remove_key(s.drop_last(), k);
        if s.last().0@ == k {
            r
        } else {
            r.push(s.last())
        }
    }
}

proof fn lemma_map_of_remove(s: Seq<(String, RailDef)>, k: Seq<char>)
    ensures
        map_of(seq_remove_key(s, k)) == map_of(s).remove(k),
    decreases s,
{
    if s.len() == 0 {
        assert(map_of(seq_remove_key(s, k)) =~= map_of(s).remove(k));
    } else {
        let ds = s.drop_last();
        lemma_map_of_remove(ds, k);
        if s.last().0@ == k {
            assert(map_of(seq_remove_key(s, k)) =~= map_of(s).remove(k));
        } else {
            assert(map_of(seq_remove_key(s, k)) == map_of(seq_remove_key(ds, k)).insert(
                s.last().0@,
                s.last().1@,
            )) by {
                assert(seq_remove_key(ds, k).push(s.last()).drop_last() =~= seq_remove_key(ds, k));
            }
            assert(map_of(seq_remove_key(s, k)) =~= map_of(s).remove(k));
        }
    }
}

impl Dictionary {
    /// An empty dictionary.
    pub fn new() -> (r: Dictionary)
        ensures
            r@ == Map::<Seq<char>, DefSpec>::empty(),
    {
        Dictionary { entries: Vec::new() }
    }

    /// Binds a name to a definition; a later binding of the same name wins.
    pub fn insert(self, name: String, def: RailDef) -> (r: Dictionary)
        ensures
            r@ == self@.insert(name@, def@),
    {
        let ghost gs = self.entries@;
        let mut entries = self.entries;
        entries.push((name, def));
        proof {
            assert(entries@.drop_last() =~= gs);
        }
        Dictionary { entries }
    }

    /// Looks a name up and hands back a copy of its newest definition.
    pub fn get(&self, name: &String) -> (r: Option<RailDef>)
        ensures
            match r {
                Some(d) => self@.contains_key(name@) && d@ == self@[name@],
                None => !self@.contains_key(name@),
            },
    {
        let n = self.entries.len();
        let mut j = n;
        while j > 0
            invariant
                j <= n,
                n == self.entries@.len(),
                forall|t: int| j <= t < n ==> (#[trigger] self.entries@[t].0)@ != name@,
            decreases j,
        {
            j = j - 1;
            if self.entries[j].0.eq(name) {
                proof {
                    lemma_map_of_last_match(self.entries@, j as int, name@);
                }
                return Some(self.entries[j].1.duplicate());
            }
        }
        proof {
            lemma_map_of_no_key(self.entries@, name@);
        }
        None
    }

    /// Whether a name is currently bound.
    pub fn contains_key(&self, name: &String) -> (r: bool)
        ensures
            r == self@.contains_key(name@),
    {
        match self.get(name) {
            Some(_) => true,
            None => false,
        }
    }

    /// Unbinds a name. The flag says whether the name was bound at all; when
    /// it was not, the dictionary comes back unchanged.
    pub fn remove(self, name: &String) -> (r: (Dictionary, bool))
        ensures
            r.1 == self@.contains_key(name@),
            r.1 ==> r.0@ == self@.remove(name@),
            !r.1 ==> r.0@ == self@,
    {
        let found = self.contains_key(name);
        if !found {
            return (self, false);
        }
        let n = self.entries.len();
        let mut kept: Vec<(String, RailDef)> = Vec::new();
        let mut i: usize = 0;
        let mut entries = self.entries;
        proof {
            assert(entries@.take(0) =~= Seq::<(String, RailDef)>::empty());
        }
        while i < n
            invariant
                i <= n,
                n == entries@.len(),
                kept@.len() == seq_remove_key(entries@.take(i as int), name@).len(),
                forall|j: int|
                    0 <= j < kept@.len() ==> (#[trigger] kept@[j]).0@ == seq_remove_key(
                        entries@.take(i as int),
                        name@,
                    )[j].0@ && kept@[j].1@ == seq_remove_key(entries@.take(i as int), name@)[j].1@,
            decreases n - i,
        {
            let ghost pre = entries@.take(i as int);
            let ghost post = entries@.take(i + 1);
            proof {
                assert(post.drop_last() =~= pre);
                assert(post.last() == entries@[i as int]);
            }
            let keep_it = !entries[i].0.eq(name);
            if keep_it {
                let dup = (entries[i].0.clone(), entries[i].1.duplicate());
                proof {
                    assert(dup.1@ == entries@[i as int].1@);
                }
                kept.push(dup);
                proof {
                    let old_srk = seq_remove_key(pre, name@);
                    let new_srk = seq_remove_key(post, name@);
                    assert(new_srk == old_srk.push(entries@[i as int]));
                    assert forall|j: int| 0 <= j < kept@.len() implies (#[trigger] kept@[j]).0@
                        == new_srk[j].0@ && kept@[j].1@ == new_srk[j].1@ by {
                        if j < kept@.len() - 1 {
                            assert(kept@[j] == kept@.drop_last()[j]);
                            assert(new_srk[j] == old_srk[j]);
                        } else {
                            assert(kept@[j] == kept@.last());
                            assert(new_srk[j] == entries@[i as int]);
                        }
                    }
                }
            }
            i = i + 1;
        }
        proof {
            assert(entries@.take(n as int) =~= entries@);
            lemma_map_of_congruent(kept@, seq_remove_key(entries@, name@));
            lemma_map_of_remove(entries@, name@);
        }
        (Dictionary { entries: kept }, true)
    }

    /// A deep copy with the same model.
    pub fn duplicate(&self) -> (r: Dictionary)
        ensures
            r@ == self@,
    {
        let n = self.entries.len();
        let mut entries: Vec<(String, RailDef)> = Vec::new();
        let mut i: usize = 0;
        while i < n
            invariant
                i <= n,
                n == self.entries@.len(),
                entries@.len() == i,
                forall|j: int|
                    0 <= j < i ==> (#[trigger] entries@[j]).0@ == self.entries@[j].0@
                        && entries@[j].1@ == self.entries@[j].1@,
            decreases n - i,
        {
            entries.push((self.entries[i].0.clone(), self.entries[i].1.duplicate()));
            i = i + 1;
        }
        proof {
            lemma_map_of_congruent(entries@, self.entries@);
        }
        Dictionary { entries }
    }
}

proof fn lemma_map_of_congruent(s1: Seq<(String, RailDef)>, s2: Seq<(String, RailDef)>)
    requires
        s1.len() == s2.len(),
        forall|j: int|
            0 <= j < s1.len() ==> (#[trigger] s1[j]).0@ == s2[j].0@ && s1[j].1@ == s2[j].1@,
    ensures
        map_of(s1) == map_of(s2),
    decreases s1,
{
    if s1.len() > 0 {
        let d1 = s1.drop_last();
        let d2 = s2.drop_last();
        assert forall|j: int|
            0 <= j < d1.len() implies (#[trigger] d1[j]).0@ == d2[j].0@ && d1[j].1@ == d2[j].1@ by {
            assert(d1[j] == s1[j] && d2[j] == s2[j]);
        }
        lemma_map_of_congruent(d1, d2);
        assert(s1.last() == s1[s1.len() - 1] && s2.last() == s2[s2.len() - 1]);
        assert(map_of(s1) =~= map_of(s2));
    }
}

} // verus!

verus! {

impl Dictionary {
    /// Binds a definition under its own name.
    pub fn insert_def(self, def: RailDef) -> (r: Dictionary)
        ensures
            r@ == self@.insert(def@.name, def@),
    {
        let name = def.name.clone();
        self.insert(name, def)
    }
}

} // verus!
