//! The matching context: objects, tags that alias them, and local variables
//! that live for one top-level pattern application.

use vstd::prelude::*;
use crate::table::{Duplicate, StrMap};
use crate::text::{starts_with, to_owned_string};

verus! {

/// An object's attributes: attribute name to an optional type.
pub type Attributes = StrMap<Option<String>>;

/// View of an object's attributes.
pub type AttrsView = Map<Seq<char>, Option<Seq<char>>>;

/// View of all objects and tags.
pub type ObjectsView = Map<Seq<char>, AttrsView>;

/// The character that starts the key under which a tag is stored.
pub open spec fn tag_prefix() -> Seq<char> {
    seq!['?']
}

/// The attribute of a tag that names what it aliases.
pub open spec fn resolves_to_attr() -> Seq<char> {
    seq!['r', 'e', 's', 'o', 'l', 'v', 'e', 's', '_', 't', 'o']
}

/// Key under which the tag `name` is stored.
pub open spec fn tag_key(name: Seq<char>) -> Seq<char> {
    tag_prefix() + name
}

/// Whether a stored key denotes a tag.
pub open spec fn is_tag_key(key: Seq<char>) -> bool {
    crate::text::is_prefix(tag_prefix(), key)
}

/// How a name resolves among the objects.
pub enum Resolution {
    /// The name leads to the non-tag object stored under this key.
    Found(Seq<char>),
    /// Nothing is stored under the name.
    Absent,
    /// A tag on the way has no `resolves_to` value, or names nothing stored.
    Broken(Seq<char>),
    /// More hops than the given bound were needed.
    Exhausted,
}

/// Follows tags from `name`, taking at most `hops` steps from a tag to what
/// it aliases. Only a name that is not stored at all is absent: a tag whose
/// `resolves_to` is missing, or names nothing stored, is broken.
pub open spec fn resolve(objs: ObjectsView, name: Seq<char>, hops: nat) -> Resolution {
    if !objs.contains_key(name) {
        Resolution::Absent
    } else {
        follow(objs, name, hops)
    }
}

/// Follows tags from the stored name `name`, taking at most `hops` steps.
pub open spec fn follow(objs: ObjectsView, name: Seq<char>, hops: nat) -> Resolution
    decreases hops,
{
    if !is_tag_key(name) {
        Resolution::Found(name)
    } else {
        match objs[name].get(resolves_to_attr()) {
            Some(Some(target)) => if !objs.contains_key(target) {
                Resolution::Broken(name)
            } else if hops == 0 {
                Resolution::Exhausted
            } else {
                follow(objs, target, (hops - 1) as nat)
            },
            _ => Resolution::Broken(name),
        }
    }
}

/// Why a lookup had to stop the run.
#[derive(Debug, Clone, PartialEq, Eq)]
pub enum ContextError {
    /// The tag stored under this key has no `resolves_to` value, or names
    /// nothing stored.
    BrokenTag(String),
    /// Tags starting from this name alias each other in a cycle.
    TagCycle(String),
}

/// Objects and tags for a whole run, and frame-scoped local variables.
#[derive(Clone)]
pub struct ParserContext {
    variables: StrMap<Attributes>,
    local_variables: StrMap<String>,
    frame_number: usize,
}

/// The tag prefix as a string.
fn tag_prefix_str() -> (r: &'static str)
    ensures
        r@ == tag_prefix(),
{
    proof {
        reveal_strlit("?");
    }
    "?"
}

/// The `resolves_to` attribute name as a string.
fn resolves_to_str() -> (r: &'static str)
    ensures
        r@ == resolves_to_attr(),
{
    proof {
        reveal_strlit("resolves_to");
    }
    "resolves_to"
}

impl ParserContext {
    /// All objects and tags.
    pub closed spec fn objects(&self) -> ObjectsView {
        self.variables@
    }

    /// Local variables.
    pub closed spec fn locals(&self) -> Map<Seq<char>, Seq<char>> {
        self.local_variables@
    }

    /// Depth of pattern application.
    pub closed spec fn depth(&self) -> nat {
        self.frame_number as nat
    }

    /// A context with no objects, no variables, at depth zero.
    pub fn new() -> (r: Self)
        ensures
            r.objects() == ObjectsView::empty(),
            r.locals() == Map::<Seq<char>, Seq<char>>::empty(),
            r.depth() == 0,
    {
        ParserContext { variables: StrMap::new(), local_variables: StrMap::new(), frame_number: 0 }
    }

    /// A copy of this context.
    pub fn snapshot(&self) -> (r: Self)
        ensures
            r.objects() == self.objects(),
            r.locals() == self.locals(),
            r.depth() == self.depth(),
    {
        ParserContext {
            variables: self.variables.duplicate(),
            local_variables: self.local_variables.duplicate(),
            frame_number: self.frame_number,
        }
    }

    /// Creates the object `name` with no attributes, unless it exists.
    pub fn make_obj(&mut self, name: &str)
        ensures
            final(self).objects() == if old(self).objects().contains_key(name@) {
                old(self).objects()
            } else {
                old(self).objects().insert(name@, AttrsView::empty())
            },
            final(self).locals() == old(self).locals(),
            final(self).depth() == old(self).depth(),
    {
        if !self.variables.contains_key(name) {
            self.variables.insert(to_owned_string(name), StrMap::new());
        }
    }

    /// Sets attribute `attr_name` of object `name` to `attr_type`, creating
    /// the object when it is missing; an earlier value is overwritten.
    pub fn make_attribute(&mut self, name: &str, attr_name: &str, attr_type: Option<&str>)
        ensures
            final(self).objects() == old(self).objects().insert(
                name@,
                match old(self).objects().get(name@) {
                    Some(attrs) => attrs,
                    None => AttrsView::empty(),
                }.insert(attr_name@, match attr_type {
                    Some(t) => Some(t@),
                    None => None,
                }),
            ),
            final(self).locals() == old(self).locals(),
            final(self).depth() == old(self).depth(),
    {
        let mut attrs = match self.variables.remove(name) {
            Some(attrs) => attrs,
            None => StrMap::new(),
        };
        let value = match attr_type {
            Some(t) => Some(to_owned_string(t)),
            None => None,
        };
        attrs.insert(to_owned_string(attr_name), value);
        self.variables.insert(to_owned_string(name), attrs);
        assert(self.objects() =~= old(self).objects().insert(
            name@,
            match old(self).objects().get(name@) {
                Some(attrs) => attrs,
                None => AttrsView::empty(),
            }.insert(attr_name@, match attr_type {
                Some(t) => Some(t@),
                None => None,
            }),
        ));
    }

    /// Makes `name` a tag that aliases `resolves_to`.
    pub fn make_tag(&mut self, name: &str, resolves_to: &str)
        ensures
            final(self).objects() == old(self).objects().insert(
                tag_key(name@),
                match old(self).objects().get(tag_key(name@)) {
                    Some(attrs) => attrs,
                    None => AttrsView::empty(),
                }.insert(resolves_to_attr(), Some(resolves_to@)),
            ),
            final(self).locals() == old(self).locals(),
            final(self).depth() == old(self).depth(),
    {
        let mut key = to_owned_string(tag_prefix_str());
        key.append(name);
        self.make_attribute(key.as_str(), resolves_to_str(), Some(resolves_to));
    }

    /// The object that `name` stands for, following tags. A tag without a
    /// `resolves_to` value, or tags that alias each other in a cycle, stop
    /// the run with an error.
    pub fn get_obj(&self, name: &str) -> (r: Result<Option<&Attributes>, ContextError>)
        ensures
            self.objects().dom().finite(),
            match resolve(self.objects(), name@, self.objects().len()) {
                Resolution::Found(k) => r matches Ok(Some(attrs)) && attrs@ == self.objects()[k],
                Resolution::Absent => r == Ok::<Option<&Attributes>, ContextError>(None),
                Resolution::Broken(k) => r matches Err(ContextError::BrokenTag(t)) && t@ == k,
                Resolution::Exhausted => r matches Err(ContextError::TagCycle(t)) && t@ == name@,
            },
    {
        let bound = self.variables.len();
        let first = match self.variables.get(name) {
            None => {
                return Ok(None);
            },
            Some(attrs) => attrs,
        };
        let mut hops: usize = 0;
        let mut current: &str = name;
        let mut attrs: &Attributes = first;
        loop
            invariant
                hops <= bound,
                bound == self.objects().len(),
                self.objects().dom().finite(),
                self.objects().contains_key(current@),
                attrs@ == self.objects()[current@],
                resolve(self.objects(), name@, bound as nat)
                    == follow(self.objects(), current@, (bound - hops) as nat),
            decreases bound - hops,
        {
            if !starts_with(current, tag_prefix_str()) {
                return Ok(Some(attrs));
            }
            match attrs.get(resolves_to_str()) {
                Some(Some(target)) => {
                    match self.variables.get(target.as_str()) {
                        None => {
                            return Err(ContextError::BrokenTag(to_owned_string(current)));
                        },
                        Some(next) => {
                            if hops == bound {
                                return Err(ContextError::TagCycle(to_owned_string(name)));
                            }
                            hops += 1;
                            current = target.as_str();
                            attrs = next;
                        },
                    }
                },
                _ => {
                    return Err(ContextError::BrokenTag(to_owned_string(current)));
                },
            }
        }
    }

    /// Binds local variable `name` to `val`, and hands back the value it replaced.
    pub fn make_variable(&mut self, name: &str, val: &str) -> (r: Option<String>)
        ensures
            final(self).locals() == old(self).locals().insert(name@, val@),
            final(self).objects() == old(self).objects(),
            final(self).depth() == old(self).depth(),
            match r {
                Some(v) => old(self).locals().contains_key(name@) && v@ == old(self).locals()[name@],
                None => !old(self).locals().contains_key(name@),
            },
    {
        self.local_variables.insert(to_owned_string(name), to_owned_string(val))
    }

    /// The value of local variable `name`.
    pub fn get_variable(&self, name: &str) -> (r: Option<String>)
        ensures
            match r {
                Some(v) => self.locals().contains_key(name@) && v@ == self.locals()[name@],
                None => !self.locals().contains_key(name@),
            },
    {
        match self.local_variables.get(name) {
            Some(v) => Some(v.clone()),
            None => None,
        }
    }

    /// Forgets every local variable.
    pub fn clear_variables(&mut self)
        ensures
            final(self).locals() == Map::<Seq<char>, Seq<char>>::empty(),
            final(self).objects() == old(self).objects(),
            final(self).depth() == old(self).depth(),
    {
        self.local_variables.clear();
    }

    /// Current depth of pattern application.
    pub fn frame_depth(&self) -> (r: usize)
        ensures
            r == self.depth(),
    {
        self.frame_number
    }

    /// Enters one more level of pattern application.
    pub fn enter_frame(&mut self)
        requires
            old(self).depth() < usize::MAX,
        ensures
            final(self).depth() == old(self).depth() + 1,
            final(self).objects() == old(self).objects(),
            final(self).locals() == old(self).locals(),
    {
        self.frame_number = self.frame_number + 1;
    }

    /// Takes the objects, tags and local variables of `other`, keeping the
    /// current depth.
    pub fn adopt(&mut self, other: ParserContext)
        ensures
            final(self).objects() == other.objects(),
            final(self).locals() == other.locals(),
            final(self).depth() == old(self).depth(),
    {
        self.variables = other.variables;
        self.local_variables = other.local_variables;
    }

    /// Leaves one level of pattern application; on return to depth zero the
    /// local variables are cleared, and `true` says so.
    pub fn leave_frame(&mut self) -> (cleared: bool)
        requires
            old(self).depth() > 0,
        ensures
            final(self).depth() == old(self).depth() - 1,
            (final(self).depth(), final(self).locals()) == after_leave(old(self).depth(), old(self).locals()),
            cleared == (final(self).depth() == 0),
            final(self).objects() == old(self).objects(),
            final(self).locals() == if cleared {
                Map::<Seq<char>, Seq<char>>::empty()
            } else {
                old(self).locals()
            },
    {
        self.frame_number = self.frame_number - 1;
        if self.frame_number == 0 {
            self.clear_variables();
            true
        } else {
            false
        }
    }
}

/// Depth and local variables after leaving one level of application.
pub open spec fn after_leave(depth: nat, locals: Map<Seq<char>, Seq<char>>) -> (nat, Map<Seq<char>, Seq<char>>) {
    let d = (depth - 1) as nat;
    (d, if d == 0 { Map::empty() } else { locals })
}

/// Depth and local variables after leaving `k` levels, one at a time.
pub open spec fn unwind(depth: nat, locals: Map<Seq<char>, Seq<char>>, k: nat) -> (nat, Map<Seq<char>, Seq<char>>)
    decreases k,
{
    if k == 0 {
        (depth, locals)
    } else {
        let prev = unwind(depth, locals, (k - 1) as nat);
        after_leave(prev.0, prev.1)
    }
}

/// Leaving `n` nested applications one at a time keeps the local variables
/// at every inner return and clears them once, when depth zero is reached.
pub proof fn lemma_unwind_clears_once(n: nat, locals: Map<Seq<char>, Seq<char>>)
    requires
        n >= 1,
    ensures
        forall|k: nat| k < n ==> #[trigger] unwind(n, locals, k) == (((n - k) as nat), locals),
        unwind(n, locals, n) == (0nat, Map::<Seq<char>, Seq<char>>::empty()),
{
    assert forall|k: nat| k < n implies #[trigger] unwind(n, locals, k) == (((n - k) as nat), locals) by {
        lemma_unwind_prefix(n, locals, k);
    }
    lemma_unwind_prefix(n, locals, (n - 1) as nat);
}

proof fn lemma_unwind_prefix(n: nat, locals: Map<Seq<char>, Seq<char>>, k: nat)
    requires
        k < n,
    ensures
        unwind(n, locals, k) == (((n - k) as nat), locals),
    decreases k,
{
    if k > 0 {
        lemma_unwind_prefix(n, locals, (k - 1) as nat);
    }
}

impl Default for ParserContext {
    /// A context with no objects, no variables, at depth zero.
    fn default() -> (r: Self)
        ensures
            r.objects() == ObjectsView::empty(),
            r.locals() == Map::<Seq<char>, Seq<char>>::empty(),
            r.depth() == 0,
    {
        ParserContext::new()
    }
}

/// `chain[i]` is a stored tag whose `resolves_to` names `chain[i + 1]`, for
/// each position before the last.
pub open spec fn tag_links(objs: ObjectsView, chain: Seq<Seq<char>>) -> bool {
    forall|i: int|
        0 <= i < chain.len() - 1 ==> {
            &&& objs.contains_key(#[trigger] chain[i])
            &&& is_tag_key(chain[i])
            &&& objs[chain[i]].get(resolves_to_attr()) == Some(Some(chain[i + 1]))
        }
}

/// A chain of tags that ends at a stored object that is no tag.
pub open spec fn valid_tag_chain(objs: ObjectsView, chain: Seq<Seq<char>>) -> bool {
    &&& chain.len() >= 1
    &&& tag_links(objs, chain)
    &&& objs.contains_key(chain.last())
    &&& !is_tag_key(chain.last())
}

/// A chain of tags whose last tag has no `resolves_to` value, or one that
/// names nothing stored.
pub open spec fn broken_tag_chain(objs: ObjectsView, chain: Seq<Seq<char>>) -> bool {
    &&& chain.len() >= 1
    &&& tag_links(objs, chain)
    &&& objs.contains_key(chain.last())
    &&& is_tag_key(chain.last())
    &&& !(objs[chain.last()].get(resolves_to_attr()) matches Some(Some(t)) && objs.contains_key(t))
}

proof fn lemma_chain_follows(objs: ObjectsView, chain: Seq<Seq<char>>, hops: nat)
    requires
        valid_tag_chain(objs, chain) || broken_tag_chain(objs, chain),
        hops >= chain.len() - 1,
    ensures
        valid_tag_chain(objs, chain) ==> follow(objs, chain[0], hops) == Resolution::Found(chain.last()),
        broken_tag_chain(objs, chain) ==> follow(objs, chain[0], hops) == Resolution::Broken(chain.last()),
    decreases chain.len(),
{
    if chain.len() > 1 {
        let rest = chain.drop_first();
        assert(objs.contains_key(chain[0]));
        if chain.len() > 2 {
            assert(objs.contains_key(chain[1]));
        }
        assert forall|i: int| 0 <= i < rest.len() - 1 implies {
            &&& objs.contains_key(#[trigger] rest[i])
            &&& is_tag_key(rest[i])
            &&& objs[rest[i]].get(resolves_to_attr()) == Some(Some(rest[i + 1]))
        } by {
            assert(rest[i] == chain[i + 1]);
            assert(rest[i + 1] == chain[i + 2]);
        }
        lemma_chain_follows(objs, rest, (hops - 1) as nat);
        assert(rest[0] == chain[1]);
    }
}

proof fn lemma_chain_distinct(objs: ObjectsView, chain: Seq<Seq<char>>, i: int, j: int)
    requires
        valid_tag_chain(objs, chain) || broken_tag_chain(objs, chain),
        0 <= i < j < chain.len(),
    ensures
        chain[i] != chain[j],
    decreases chain.len() - j,
{
    if j < chain.len() - 1 {
        lemma_chain_distinct(objs, chain, i + 1, j + 1);
        assert(objs[chain[i]].get(resolves_to_attr()) == Some(Some(chain[i + 1])));
        assert(objs[chain[j]].get(resolves_to_attr()) == Some(Some(chain[j + 1])));
    } else {
        assert(objs.contains_key(chain[i]) && is_tag_key(chain[i]));
        assert(objs[chain[i]].get(resolves_to_attr()) == Some(Some(chain[i + 1])));
        if i + 1 < chain.len() - 1 {
            assert(objs.contains_key(chain[i + 1]));
        }
    }
}

/// Following a chain of `k` tags reaches its final object in at most `k`
/// hops, and so does `get_obj`; a chain whose last tag lacks its
/// `resolves_to` value resolves to an error on that tag instead.
pub proof fn lemma_tag_chain_resolves(objs: ObjectsView, chain: Seq<Seq<char>>)
    requires
        objs.dom().finite(),
        valid_tag_chain(objs, chain) || broken_tag_chain(objs, chain),
    ensures
        valid_tag_chain(objs, chain) ==> resolve(objs, chain[0], (chain.len() - 1) as nat)
            == Resolution::Found(chain.last()),
        valid_tag_chain(objs, chain) ==> resolve(objs, chain[0], objs.len()) == Resolution::Found(
            chain.last(),
        ),
        broken_tag_chain(objs, chain) ==> resolve(objs, chain[0], objs.len()) == Resolution::Broken(
            chain.last(),
        ),
{
    assert forall|a: int, b: int| 0 <= a < chain.len() && 0 <= b < chain.len() && a != b implies chain[a] != chain[b] by {
        if a < b {
            lemma_chain_distinct(objs, chain, a, b);
        } else {
            lemma_chain_distinct(objs, chain, b, a);
        }
    }
    assert(chain.no_duplicates());
    chain.unique_seq_to_set();
    assert forall|k: Seq<char>| chain.to_set().contains(k) implies objs.dom().contains(k) by {
        let i = choose|i: int| 0 <= i < chain.len() && chain[i] == k;
        if i < chain.len() - 1 {
            assert(objs.contains_key(chain[i]));
        }
    }
    vstd::set_lib::lemma_len_subset(chain.to_set(), objs.dom());
    lemma_chain_follows(objs, chain, (chain.len() - 1) as nat);
    lemma_chain_follows(objs, chain, objs.len());
    if chain.len() > 1 {
        assert(objs.contains_key(chain[0]));
    }
}

} // verus!
